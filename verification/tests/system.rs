use nanvix_bench::benchmark::{
    Benchmark, CleanupAction, CleanupOutcome, Component, LogLevel, SetupAction, SetupEvent,
};
use nanvix_bench::flavour::BenchmarkFlavour;
use nanvix_bench::launch::{get_proj_root, CommandLine, CLIENT_CORE_STR};

fn describe(actions: &[CleanupAction]) -> Vec<String> {
    actions.iter().map(|a| format!("{a:?}")).collect()
}

fn guest(command: &CommandLine) -> &str {
    &command.args[6]
}

#[test]
fn nothing_runs_at_first() {
    let system = Benchmark::new(BenchmarkFlavour::WarmStart);
    assert_eq!(system.flavour, BenchmarkFlavour::WarmStart);
    assert_eq!(system.hwloc.linuxd_core_str, "10-14");
    assert_eq!(system.hwloc.nanovm_core_str, "15-19");
    assert_eq!(system.gateway_address, "127.0.0.1:9999");
    assert_eq!(system.linuxd_address, "/tmp/nanvix_datapath_ubench.socket");
    assert_eq!(system.linuxd, None);
    assert_eq!(system.nanovm, None);
    assert!(!system.gateway);
    assert_eq!(CLIENT_CORE_STR, "0-9");
}

#[test]
fn linuxd_command_line() {
    let command = Benchmark::new(BenchmarkFlavour::ColdStart).start_linuxd();
    assert_eq!(command.program, "taskset");
    assert_eq!(
        command.args,
        vec![
            "-ac",
            "10-14",
            "/home/csegarra/git/nanvix/nanvix/bin/linuxd.elf",
            "-bind-addr",
            "/tmp/nanvix_datapath_ubench.socket",
            "-gateway-addr",
            "127.0.0.1:9999",
            "-gateway-socket-type",
            "tcp",
            "-log-to-file",
        ]
    );
    assert_eq!(command.current_dir, get_proj_root());
}

#[test]
fn nanovm_command_line() {
    let command = Benchmark::new(BenchmarkFlavour::WarmStart).start_nanovm();
    assert_eq!(command.program, "taskset");
    assert_eq!(
        command.args,
        vec![
            "-ac",
            "15-19",
            "/home/csegarra/git/nanvix/nanvix/bin/microvm.elf",
            "-kernel",
            "/home/csegarra/git/nanvix/nanvix/bin/kernel.elf",
            "-initrd",
            "/home/csegarra/git/nanvix/nanvix/bin/echo-rust-server-nostd.elf",
            "-gateway",
            "/tmp/nanvix_datapath_ubench.socket",
            "-log-to-file",
        ]
    );
    assert_eq!(command.current_dir, "/home/csegarra/git/nanvix/nanvix");
}

#[test]
fn only_the_warm_start_needs_a_server() {
    let image = "/home/csegarra/git/nanvix/nanvix/bin/echo-rust-nostd.elf";
    let cold = Benchmark::new(BenchmarkFlavour::ColdStart).start_nanovm();
    let echo = Benchmark::new(BenchmarkFlavour::EchoBreakdown).start_nanovm();
    assert_eq!(guest(&cold), image);
    assert_eq!(guest(&echo), image);
}

#[test]
fn both_processes_share_the_socket() {
    let mut system = Benchmark::new(BenchmarkFlavour::ColdStart);
    system.linuxd_address = "/tmp/other.socket".to_string();
    assert_eq!(system.start_linuxd().args[4], "/tmp/other.socket");
    assert_eq!(system.start_nanovm().args[8], "/tmp/other.socket");
}

#[test]
fn setup_goes_through_its_steps() {
    let mut system = Benchmark::new(BenchmarkFlavour::EchoBreakdown);
    let action = system.setup(SetupEvent::Begin);
    assert!(matches!(action, SetupAction::BindGateway(ref a) if a == "127.0.0.1:9999"));
    let action = system.setup(SetupEvent::GatewayBound);
    assert!(matches!(action, SetupAction::StartLinuxd(ref c) if c.args[3] == "-bind-addr"));
    let action = system.setup(SetupEvent::LinuxdStarted(41));
    assert!(matches!(action, SetupAction::AcceptGateway));
    let action = system.setup(SetupEvent::GatewayConnected);
    assert!(matches!(action, SetupAction::StartNanovm(ref c) if c.args[3] == "-kernel"));
    let action = system.setup(SetupEvent::NanovmStarted(42));
    assert!(matches!(action, SetupAction::Done));
    assert_eq!(system.linuxd, Some(41));
    assert_eq!(system.nanovm, Some(42));
    assert!(system.gateway);
    assert_eq!(system.flavour, BenchmarkFlavour::EchoBreakdown);
    assert_eq!(system.linuxd_address, "/tmp/nanvix_datapath_ubench.socket");
}

#[test]
fn failing_gateway_ends_the_program() {
    let mut system = Benchmark::new(BenchmarkFlavour::ColdStart);
    system.setup(SetupEvent::Begin);
    system.setup(SetupEvent::GatewayBound);
    system.setup(SetupEvent::LinuxdStarted(7));
    let action = system.setup(SetupEvent::GatewayFailed);
    assert!(matches!(action, SetupAction::CleanUpAndExit(1)));
    assert!(!system.gateway);
    assert!(matches!(
        system.cleanup()[0],
        CleanupAction::Interrupt { component: Component::Linuxd, pid: 7 }
    ));
}

#[test]
fn failing_nanovm_is_cleaned_up() {
    let mut system = Benchmark::new(BenchmarkFlavour::ColdStart);
    system.setup(SetupEvent::LinuxdStarted(7));
    system.setup(SetupEvent::GatewayConnected);
    let action = system.setup(SetupEvent::NanovmFailed);
    assert!(matches!(action, SetupAction::CleanUp));
    assert_eq!(system.nanovm, None);
    assert_eq!(system.linuxd, Some(7));
    assert!(system.gateway);
}

#[test]
fn cleanup_goes_in_order() {
    let mut system = Benchmark::new(BenchmarkFlavour::ColdStart);
    assert_eq!(system.cleanup().len(), 1);
    system.setup(SetupEvent::LinuxdStarted(41));
    system.setup(SetupEvent::NanovmStarted(42));
    let actions = system.cleanup();
    assert_eq!(actions.len(), 3);
    assert!(matches!(
        actions[0],
        CleanupAction::Interrupt { component: Component::Nanovm, pid: 42 }
    ));
    assert!(matches!(
        actions[1],
        CleanupAction::Interrupt { component: Component::Linuxd, pid: 41 }
    ));
    assert!(matches!(
        actions[2],
        CleanupAction::RemoveSocket(ref p) if p == "/tmp/nanvix_datapath_ubench.socket"
    ));
    assert_eq!(describe(&system.cleanup()), describe(&actions));
}

#[test]
fn process_identifier_is_read_as_signed() {
    let mut system = Benchmark::new(BenchmarkFlavour::ColdStart);
    for pid in [1u32, 0x7fff_ffff, 0x8000_0000, 0xffff_ffff] {
        system.setup(SetupEvent::NanovmStarted(pid));
        match system.cleanup()[0] {
            CleanupAction::Interrupt { pid: signed, .. } => assert_eq!(signed, pid as i32),
            _ => panic!("no signal"),
        }
    }
}

#[test]
fn announcements() {
    let cold = Benchmark::new(BenchmarkFlavour::ColdStart);
    let echo = Benchmark::new(BenchmarkFlavour::EchoBreakdown);
    assert_eq!(cold.announce_setup(), "Setting up cold-start benchmark...");
    assert_eq!(
        cold.warn_about_build(),
        "WARNING: this benchmark requires Nanvix (re-) compilation with RELEASE=yes LOG_LEVEL=panic"
    );
    assert_eq!(
        echo.warn_about_build(),
        "WARNING: this benchmark requires Nanvix (re-) compilation with TIMESTAMP_MSG=yes"
    );
}

fn logged(action: &CleanupAction, outcome: CleanupOutcome) -> Option<(LogLevel, String)> {
    action.log(outcome, "EPERM").map(|line| (line.level, line.text))
}

#[test]
fn failed_signal_is_an_error() {
    let nanovm = CleanupAction::Interrupt { component: Component::Nanovm, pid: 1 };
    let linuxd = CleanupAction::Interrupt { component: Component::Linuxd, pid: 2 };
    assert_eq!(logged(&nanovm, CleanupOutcome::Done), None);
    assert_eq!(logged(&linuxd, CleanupOutcome::Done), None);
    for outcome in [CleanupOutcome::NotFound, CleanupOutcome::Failed] {
        assert_eq!(
            logged(&nanovm, outcome),
            Some((LogLevel::Error, "error sending SIGINT to nano VM: EPERM".to_string()))
        );
        assert_eq!(
            logged(&linuxd, outcome),
            Some((LogLevel::Error, "error sending linuxd to nano VM: EPERM".to_string()))
        );
    }
}

#[test]
fn missing_socket_is_no_error() {
    let socket = CleanupAction::RemoveSocket("/tmp/s".to_string());
    assert_eq!(
        logged(&socket, CleanupOutcome::Done),
        Some((LogLevel::Debug, "removed linuxd socket at: /tmp/s".to_string()))
    );
    assert_eq!(
        logged(&socket, CleanupOutcome::NotFound),
        Some((LogLevel::Debug, "linuxd socket not found".to_string()))
    );
    assert_eq!(
        logged(&socket, CleanupOutcome::Failed),
        Some((
            LogLevel::Error,
            "failed to delete linuxd socket file (file: /tmp/s - error: EPERM)".to_string()
        ))
    );
}

#[test]
fn earlier_nanovm_is_signalled_after_a_failed_setup() {
    let mut system = Benchmark::new(BenchmarkFlavour::ColdStart);
    system.setup(SetupEvent::NanovmStarted(5));
    system.setup(SetupEvent::Begin);
    system.setup(SetupEvent::GatewayFailed);
    assert!(matches!(
        system.cleanup()[0],
        CleanupAction::Interrupt { component: Component::Nanovm, pid: 5 }
    ));
}
