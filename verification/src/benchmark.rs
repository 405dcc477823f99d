//! The system under test, how it is brought up and how it is taken down.
//!
//! Binding sockets, spawning processes and sending signals is left to the caller.
//! What is to be done next, and what follows from how it went, is decided here.

use crate::flavour::{flavour_name, BenchmarkFlavour};
use crate::launch::{
    linuxd_command, linuxd_command_line, nanovm_command, nanovm_command_line, CommandLine,
    CommandLineView, HwLoc, GATEWAY_ADDRESS, NANVIX_LINUXD_CORE_STR, NANVIX_LINUXD_UNIX_SOCKET,
    NANVIX_NANOVM_CORE_STR,
};
use vstd::prelude::*;
use vstd::string::*;

verus! {

/// The system under test.
#[derive(Debug)]
pub struct Benchmark {
    /// The cores that the parts of the system are pinned to.
    pub hwloc: HwLoc,
    /// What is measured.
    pub flavour: BenchmarkFlavour,
    /// Address on which the gateway listens for linuxd.
    pub gateway_address: String,
    /// Socket on which linuxd serves the nano VM.
    pub linuxd_address: String,
    /// Process identifier of linuxd, once it was started.
    pub linuxd: Option<u32>,
    /// Process identifier of the nano VM, once it was started.
    pub nanovm: Option<u32>,
    /// Whether linuxd has connected to the gateway.
    pub gateway: bool,
}

/// The system under test, with its texts as sequences of characters.
#[verifier::ext_equal]
pub struct BenchmarkView {
    /// The cores that linuxd is pinned to.
    pub linuxd_cores: Seq<char>,
    /// The cores that the nano VM is pinned to.
    pub nanovm_cores: Seq<char>,
    /// What is measured.
    pub flavour: BenchmarkFlavour,
    /// Address on which the gateway listens for linuxd.
    pub gateway_address: Seq<char>,
    /// Socket on which linuxd serves the nano VM.
    pub linuxd_address: Seq<char>,
    /// Process identifier of linuxd, once it was started.
    pub linuxd: Option<u32>,
    /// Process identifier of the nano VM, once it was started.
    pub nanovm: Option<u32>,
    /// Whether linuxd has connected to the gateway.
    pub gateway: bool,
}

impl View for Benchmark {
    type V = BenchmarkView;

    open spec fn view(&self) -> BenchmarkView {
        BenchmarkView {
            linuxd_cores: self.hwloc.linuxd_core_str@,
            nanovm_cores: self.hwloc.nanovm_core_str@,
            flavour: self.flavour,
            gateway_address: self.gateway_address@,
            linuxd_address: self.linuxd_address@,
            linuxd: self.linuxd,
            nanovm: self.nanovm,
            gateway: self.gateway,
        }
    }
}

/// A system of which nothing is running yet.
pub open spec fn idle_benchmark(flavour: BenchmarkFlavour) -> BenchmarkView {
    BenchmarkView {
        linuxd_cores: NANVIX_LINUXD_CORE_STR@,
        nanovm_cores: NANVIX_NANOVM_CORE_STR@,
        flavour,
        gateway_address: GATEWAY_ADDRESS@,
        linuxd_address: NANVIX_LINUXD_UNIX_SOCKET@,
        linuxd: None,
        nanovm: None,
        gateway: false,
    }
}

impl BenchmarkView {
    /// The command line that starts linuxd.
    pub open spec fn linuxd_command(self) -> CommandLineView {
        linuxd_command_line(self.linuxd_cores, self.linuxd_address, self.gateway_address)
    }

    /// The command line that starts the nano VM.
    pub open spec fn nanovm_command(self) -> CommandLineView {
        nanovm_command_line(self.nanovm_cores, self.flavour, self.linuxd_address)
    }

    /// Whether two systems are configured alike, whatever is running of them.
    pub open spec fn same_configuration(self, other: BenchmarkView) -> bool {
        &&& self.linuxd_cores == other.linuxd_cores
        &&& self.nanovm_cores == other.nanovm_cores
        &&& self.flavour == other.flavour
        &&& self.gateway_address == other.gateway_address
        &&& self.linuxd_address == other.linuxd_address
    }
}

/// How a step of the set-up went.
#[derive(Clone, Copy, Debug, PartialEq, Eq, Structural)]
pub enum SetupEvent {
    /// The set-up begins.
    Begin,
    /// The gateway listens on its address.
    GatewayBound,
    /// linuxd was started, with this process identifier.
    LinuxdStarted(u32),
    /// linuxd has connected to the gateway, and is ready to serve requests.
    GatewayConnected,
    /// The gateway could not listen, linuxd could not be started, or the gateway
    /// could not accept its connection.
    GatewayFailed,
    /// The nano VM was started, with this process identifier.
    NanovmStarted(u32),
    /// The nano VM could not be started.
    NanovmFailed,
}

/// What the set-up has to do next.
#[derive(Debug)]
pub enum SetupAction {
    /// Listen on an address.
    BindGateway(String),
    /// Start linuxd.
    StartLinuxd(CommandLine),
    /// Wait for linuxd to connect.
    AcceptGateway,
    /// Start the nano VM.
    StartNanovm(CommandLine),
    /// Clean up and leave the program with an exit code.
    CleanUpAndExit(i32),
    /// Clean up; the set-up is over.
    CleanUp,
    /// The set-up is over: requests can be pushed to the gateway.
    Done,
}

/// What the set-up has to do next, with texts as sequences of characters.
#[verifier::ext_equal]
pub enum SetupActionView {
    /// Listen on an address.
    BindGateway(Seq<char>),
    /// Start linuxd.
    StartLinuxd(CommandLineView),
    /// Wait for linuxd to connect.
    AcceptGateway,
    /// Start the nano VM.
    StartNanovm(CommandLineView),
    /// Clean up and leave the program with an exit code.
    CleanUpAndExit(i32),
    /// Clean up; the set-up is over.
    CleanUp,
    /// The set-up is over.
    Done,
}

impl View for SetupAction {
    type V = SetupActionView;

    open spec fn view(&self) -> SetupActionView {
        match self {
            SetupAction::BindGateway(address) => SetupActionView::BindGateway(address@),
            SetupAction::StartLinuxd(command) => SetupActionView::StartLinuxd(command@),
            SetupAction::AcceptGateway => SetupActionView::AcceptGateway,
            SetupAction::StartNanovm(command) => SetupActionView::StartNanovm(command@),
            SetupAction::CleanUpAndExit(code) => SetupActionView::CleanUpAndExit(*code),
            SetupAction::CleanUp => SetupActionView::CleanUp,
            SetupAction::Done => SetupActionView::Done,
        }
    }
}

/// One step of the set-up: the gateway first, which needs linuxd to connect to it,
/// and the nano VM last.
pub open spec fn setup_step(system: BenchmarkView, event: SetupEvent) -> (
    BenchmarkView,
    SetupActionView,
) {
    match event {
        SetupEvent::Begin => (system, SetupActionView::BindGateway(system.gateway_address)),
        SetupEvent::GatewayBound => (system, SetupActionView::StartLinuxd(system.linuxd_command())),
        SetupEvent::LinuxdStarted(pid) => (
            BenchmarkView { linuxd: Some(pid), ..system },
            SetupActionView::AcceptGateway,
        ),
        SetupEvent::GatewayConnected => (
            BenchmarkView { gateway: true, ..system },
            SetupActionView::StartNanovm(system.nanovm_command()),
        ),
        SetupEvent::GatewayFailed => (system, SetupActionView::CleanUpAndExit(1)),
        SetupEvent::NanovmStarted(pid) => (
            BenchmarkView { nanovm: Some(pid), ..system },
            SetupActionView::Done,
        ),
        SetupEvent::NanovmFailed => (system, SetupActionView::CleanUp),
    }
}

/// A process of the system.
#[derive(Clone, Copy, Debug, PartialEq, Eq, Structural)]
pub enum Component {
    /// The nano VM.
    Nanovm,
    /// linuxd.
    Linuxd,
}

/// One thing to do when the system is taken down.
#[derive(Debug)]
pub enum CleanupAction {
    /// Send SIGINT to a process.
    Interrupt {
        /// The part of the system that the process runs.
        component: Component,
        /// The process identifier, as signals are addressed.
        pid: i32,
    },
    /// Remove the socket file of linuxd.
    RemoveSocket(String),
}

/// One thing to do when the system is taken down, with texts as sequences of
/// characters.
#[verifier::ext_equal]
pub enum CleanupActionView {
    /// Send SIGINT to a process.
    Interrupt {
        /// The part of the system that the process runs.
        component: Component,
        /// The process identifier, as signals are addressed.
        pid: i32,
    },
    /// Remove the socket file of linuxd.
    RemoveSocket(Seq<char>),
}

impl View for CleanupAction {
    type V = CleanupActionView;

    open spec fn view(&self) -> CleanupActionView {
        match self {
            CleanupAction::Interrupt { component, pid } => CleanupActionView::Interrupt {
                component: *component,
                pid: *pid,
            },
            CleanupAction::RemoveSocket(path) => CleanupActionView::RemoveSocket(path@),
        }
    }
}

/// A 32-bit process identifier read as a signed number.
pub open spec fn signed_pid(pid: u32) -> int {
    if pid < 0x8000_0000 {
        pid as int
    } else {
        pid - 0x1_0000_0000
    }
}

/// The signal for a process, if it was started.
pub open spec fn interrupt(component: Component, process: Option<u32>) -> Seq<CleanupActionView> {
    match process {
        Some(pid) => seq![CleanupActionView::Interrupt { component, pid: signed_pid(pid) as i32 }],
        None => Seq::empty(),
    }
}

/// What taking a system down consists of: the nano VM is interrupted, then
/// linuxd, then the socket file is removed.
pub open spec fn cleanup_actions(system: BenchmarkView) -> Seq<CleanupActionView> {
    interrupt(Component::Nanovm, system.nanovm) + interrupt(Component::Linuxd, system.linuxd)
        + seq![CleanupActionView::RemoveSocket(system.linuxd_address)]
}

/// The actions that a run of cleanup actions stands for.
pub open spec fn cleanup_views(actions: Seq<CleanupAction>) -> Seq<CleanupActionView> {
    actions.map_values(|a: CleanupAction| a@)
}

/// How one thing went when the system was taken down.
#[derive(Clone, Copy, Debug, PartialEq, Eq, Structural)]
pub enum CleanupOutcome {
    /// It was done.
    Done,
    /// What it was about did not exist.
    NotFound,
    /// It failed for another reason.
    Failed,
}

/// How much a line of the log matters.
#[derive(Clone, Copy, Debug, PartialEq, Eq, Structural)]
pub enum LogLevel {
    /// Of interest when looking for a fault.
    Debug,
    /// Something went wrong.
    Error,
}

/// A line for the log.
#[derive(Debug)]
pub struct LogLine {
    /// How much it matters.
    pub level: LogLevel,
    /// What it says.
    pub text: String,
}

/// A line for the log, with its text as a sequence of characters.
#[verifier::ext_equal]
pub struct LogLineView {
    /// How much it matters.
    pub level: LogLevel,
    /// What it says.
    pub text: Seq<char>,
}

impl View for LogLine {
    type V = LogLineView;

    open spec fn view(&self) -> LogLineView {
        LogLineView { level: self.level, text: self.text@ }
    }
}

/// Whether the outcome of a cleanup action is an error: any failure to send a signal,
/// and a failure to remove the socket file unless there was none.
pub open spec fn is_cleanup_error(action: CleanupActionView, outcome: CleanupOutcome) -> bool {
    match action {
        CleanupActionView::Interrupt { .. } => outcome != CleanupOutcome::Done,
        CleanupActionView::RemoveSocket(_) => outcome == CleanupOutcome::Failed,
    }
}

/// What is logged about a cleanup action, given how it went and the reason for its
/// failure. A signal that was sent is not mentioned.
pub open spec fn cleanup_log(
    action: CleanupActionView,
    outcome: CleanupOutcome,
    reason: Seq<char>,
) -> Option<LogLineView> {
    match (action, outcome) {
        (CleanupActionView::Interrupt { .. }, CleanupOutcome::Done) => None,
        (CleanupActionView::Interrupt { component: Component::Nanovm, .. }, _) => Some(
            LogLineView {
                level: LogLevel::Error,
                text: "error sending SIGINT to nano VM: "@ + reason,
            },
        ),
        (CleanupActionView::Interrupt { component: Component::Linuxd, .. }, _) => Some(
            LogLineView {
                level: LogLevel::Error,
                text: "error sending linuxd to nano VM: "@ + reason,
            },
        ),
        (CleanupActionView::RemoveSocket(path), CleanupOutcome::Done) => Some(
            LogLineView { level: LogLevel::Debug, text: "removed linuxd socket at: "@ + path },
        ),
        (CleanupActionView::RemoveSocket(_), CleanupOutcome::NotFound) => Some(
            LogLineView { level: LogLevel::Debug, text: "linuxd socket not found"@ },
        ),
        (CleanupActionView::RemoveSocket(path), CleanupOutcome::Failed) => Some(
            LogLineView {
                level: LogLevel::Error,
                text: "failed to delete linuxd socket file (file: "@ + path + " - error: "@ + reason
                    + ")"@,
            },
        ),
    }
}

impl CleanupAction {
    /// What is to be logged about the action, given how it went and the reason for its
    /// failure, which counts only if it failed. No outcome keeps the actions behind it
    /// from being taken.
    pub fn log(&self, outcome: CleanupOutcome, reason: &str) -> (line: Option<LogLine>)
        ensures
            match line {
                Some(line) => cleanup_log(self@, outcome, reason@) == Some(line@),
                None => cleanup_log(self@, outcome, reason@) is None,
            },
    {
        match self {
            CleanupAction::Interrupt { component, .. } => {
                if outcome == CleanupOutcome::Done {
                    None
                } else {
                    let mut text = match component {
                        Component::Nanovm => "error sending SIGINT to nano VM: ".to_owned(),
                        Component::Linuxd => "error sending linuxd to nano VM: ".to_owned(),
                    };
                    text.append(reason);
                    Some(LogLine { level: LogLevel::Error, text })
                }
            },
            CleanupAction::RemoveSocket(path) => match outcome {
                CleanupOutcome::Done => {
                    let mut text = "removed linuxd socket at: ".to_owned();
                    text.append(path.as_str());
                    Some(LogLine { level: LogLevel::Debug, text })
                },
                CleanupOutcome::NotFound => Some(
                    LogLine { level: LogLevel::Debug, text: "linuxd socket not found".to_owned() },
                ),
                CleanupOutcome::Failed => {
                    let mut text = "failed to delete linuxd socket file (file: ".to_owned();
                    text.append(path.as_str());
                    text.append(" - error: ");
                    text.append(reason);
                    text.append(")");
                    Some(LogLine { level: LogLevel::Error, text })
                },
            },
        }
    }
}

/// Reads a process identifier as a signed number.
fn as_signed_pid(pid: u32) -> (signed: i32)
    ensures
        signed == signed_pid(pid),
{
    assert(pid >= 0x8000_0000 ==> (pid as i32) == pid - 0x1_0000_0000) by (bit_vector);
    pid as i32
}

impl Benchmark {
    /// A system of which nothing is running yet.
    pub fn new(flavour: BenchmarkFlavour) -> (system: Benchmark)
        ensures
            system@ == idle_benchmark(flavour),
    {
        Benchmark {
            hwloc: HwLoc {
                linuxd_core_str: NANVIX_LINUXD_CORE_STR.to_owned(),
                nanovm_core_str: NANVIX_NANOVM_CORE_STR.to_owned(),
            },
            flavour,
            gateway_address: GATEWAY_ADDRESS.to_owned(),
            linuxd_address: NANVIX_LINUXD_UNIX_SOCKET.to_owned(),
            linuxd: None,
            nanovm: None,
            gateway: false,
        }
    }

    /// The command that starts linuxd.
    pub fn start_linuxd(&self) -> (command: CommandLine)
        ensures
            command@ == self@.linuxd_command(),
    {
        linuxd_command(&self.hwloc, &self.linuxd_address, &self.gateway_address)
    }

    /// The command that starts the nano VM.
    pub fn start_nanovm(&self) -> (command: CommandLine)
        ensures
            command@ == self@.nanovm_command(),
    {
        nanovm_command(&self.hwloc, self.flavour, &self.linuxd_address)
    }

    /// Sets the system up step by step: takes note of how the last step went, and
    /// says what to do next.
    pub fn setup(&mut self, event: SetupEvent) -> (action: SetupAction)
        ensures
            (final(self)@, action@) == setup_step(old(self)@, event),
    {
        match event {
            SetupEvent::Begin => SetupAction::BindGateway(self.gateway_address.clone()),
            SetupEvent::GatewayBound => SetupAction::StartLinuxd(self.start_linuxd()),
            SetupEvent::LinuxdStarted(pid) => {
                self.linuxd = Some(pid);
                SetupAction::AcceptGateway
            },
            SetupEvent::GatewayConnected => {
                self.gateway = true;
                SetupAction::StartNanovm(self.start_nanovm())
            },
            SetupEvent::GatewayFailed => SetupAction::CleanUpAndExit(1),
            SetupEvent::NanovmStarted(pid) => {
                self.nanovm = Some(pid);
                SetupAction::Done
            },
            SetupEvent::NanovmFailed => SetupAction::CleanUp,
        }
    }

    /// What it takes to take the system down, in order: all of it is to be done,
    /// however each part goes. The processes stay on record: they are signalled again
    /// if the system is taken down again.
    pub fn cleanup(&self) -> (actions: Vec<CleanupAction>)
        ensures
            cleanup_views(actions@) == cleanup_actions(self@),
    {
        let mut actions: Vec<CleanupAction> = Vec::new();
        if let Some(pid) = self.nanovm {
            actions.push(
                CleanupAction::Interrupt { component: Component::Nanovm, pid: as_signed_pid(pid) },
            );
        }
        if let Some(pid) = self.linuxd {
            actions.push(
                CleanupAction::Interrupt { component: Component::Linuxd, pid: as_signed_pid(pid) },
            );
        }
        actions.push(CleanupAction::RemoveSocket(self.linuxd_address.clone()));
        assert(cleanup_views(actions@) =~= cleanup_actions(self@));
        actions
    }
}

/// What is announced before the system is set up.
pub open spec fn setup_announcement(flavour: BenchmarkFlavour) -> Seq<char> {
    "Setting up "@ + flavour_name(flavour) + " benchmark..."@
}

/// How Nanvix has to be built for a benchmark.
pub open spec fn build_warning(flavour: BenchmarkFlavour) -> Seq<char> {
    match flavour {
        BenchmarkFlavour::EchoBreakdown =>
            "WARNING: this benchmark requires Nanvix (re-) compilation with TIMESTAMP_MSG=yes"@,
        BenchmarkFlavour::ColdStart | BenchmarkFlavour::WarmStart =>
            "WARNING: this benchmark requires Nanvix (re-) compilation with RELEASE=yes LOG_LEVEL=panic"@,
    }
}

impl Benchmark {
    /// What is announced before the system is set up.
    pub fn announce_setup(&self) -> (text: String)
        ensures
            text@ == setup_announcement(self.flavour),
    {
        let mut text = "Setting up ".to_owned();
        text.append(self.flavour.to_string().as_str());
        text.append(" benchmark...");
        text
    }

    /// How Nanvix has to be built for the benchmark.
    pub fn warn_about_build(&self) -> (text: String)
        ensures
            text@ == build_warning(self.flavour),
    {
        match self.flavour {
            BenchmarkFlavour::EchoBreakdown =>
                "WARNING: this benchmark requires Nanvix (re-) compilation with TIMESTAMP_MSG=yes".to_owned(),
            BenchmarkFlavour::ColdStart | BenchmarkFlavour::WarmStart =>
                "WARNING: this benchmark requires Nanvix (re-) compilation with RELEASE=yes LOG_LEVEL=panic".to_owned(),
        }
    }
}

/// The set-up from its beginning through a run of events: the system as the last
/// step left it, and what that step asked for.
pub open spec fn setup_after(system: BenchmarkView, events: Seq<SetupEvent>) -> (
    BenchmarkView,
    SetupActionView,
)
    decreases events.len(),
{
    if events.len() == 0 {
        setup_step(system, SetupEvent::Begin)
    } else {
        setup_step(setup_after(system, events.drop_last()).0, events.last())
    }
}

/// When every step goes well, the set-up binds the gateway, starts linuxd, waits
/// for it to connect, starts the nano VM and is done, with all three on record.
pub proof fn law_setup_succeeds(system: BenchmarkView, linuxd: u32, nanovm: u32)
    ensures
        ({
            let bound = seq![SetupEvent::GatewayBound];
            let started = bound.push(SetupEvent::LinuxdStarted(linuxd));
            let connected = started.push(SetupEvent::GatewayConnected);
            let done = connected.push(SetupEvent::NanovmStarted(nanovm));
            &&& setup_after(system, seq![]).1 == SetupActionView::BindGateway(
                system.gateway_address,
            )
            &&& setup_after(system, bound).1 == SetupActionView::StartLinuxd(
                system.linuxd_command(),
            )
            &&& setup_after(system, started).1 == SetupActionView::AcceptGateway
            &&& setup_after(system, connected).1 == SetupActionView::StartNanovm(
                system.nanovm_command(),
            )
            &&& setup_after(system, done) == (
                BenchmarkView {
                    linuxd: Some(linuxd),
                    nanovm: Some(nanovm),
                    gateway: true,
                    ..system
                },
                SetupActionView::Done,
            )
        }),
{
    let empty = Seq::<SetupEvent>::empty();
    let bound = seq![SetupEvent::GatewayBound];
    let started = bound.push(SetupEvent::LinuxdStarted(linuxd));
    let connected = started.push(SetupEvent::GatewayConnected);
    let done = connected.push(SetupEvent::NanovmStarted(nanovm));
    assert(bound.drop_last() =~= empty);
    assert(started.drop_last() =~= bound);
    assert(connected.drop_last() =~= started);
    assert(done.drop_last() =~= connected);
    reveal_with_fuel(setup_after, 2);
}

/// When only the nano VM cannot be started, the set-up cleans up and is over without
/// leaving the program: the gateway is connected and linuxd is on record.
pub proof fn law_setup_without_nanovm(system: BenchmarkView, linuxd: u32)
    ensures
        setup_after(
            system,
            seq![
                SetupEvent::GatewayBound,
                SetupEvent::LinuxdStarted(linuxd),
                SetupEvent::GatewayConnected,
                SetupEvent::NanovmFailed,
            ],
        ) == (
            BenchmarkView { linuxd: Some(linuxd), gateway: true, ..system },
            SetupActionView::CleanUp,
        ),
{
    let bound = seq![SetupEvent::GatewayBound];
    let started = bound.push(SetupEvent::LinuxdStarted(linuxd));
    let connected = started.push(SetupEvent::GatewayConnected);
    let failed = connected.push(SetupEvent::NanovmFailed);
    assert(bound.drop_last() =~= Seq::empty());
    assert(started.drop_last() =~= bound);
    assert(connected.drop_last() =~= started);
    assert(failed.drop_last() =~= connected);
    assert(failed =~= seq![
        SetupEvent::GatewayBound,
        SetupEvent::LinuxdStarted(linuxd),
        SetupEvent::GatewayConnected,
        SetupEvent::NanovmFailed,
    ]);
    reveal_with_fuel(setup_after, 2);
    assert(setup_after(system, bound).0 == system);
    assert(setup_after(system, started).0 == BenchmarkView { linuxd: Some(linuxd), ..system });
    assert(setup_after(system, connected).0 == BenchmarkView {
        linuxd: Some(linuxd),
        gateway: true,
        ..system
    });
}

/// The set-up never changes how the system is configured.
pub proof fn law_setup_keeps_configuration(system: BenchmarkView, events: Seq<SetupEvent>)
    ensures
        setup_after(system, events).0.same_configuration(system),
    decreases events.len(),
{
    if events.len() > 0 {
        law_setup_keeps_configuration(system, events.drop_last());
    }
}

/// A set-up that failed after linuxd was started cleans up, and the clean-up signals
/// that linuxd.
pub proof fn law_failed_setup_cleans_up(
    system: BenchmarkView,
    events: Seq<SetupEvent>,
    linuxd: u32,
)
    requires
        events.contains(SetupEvent::LinuxdStarted(linuxd)),
        forall|pid: u32|
            #[trigger] events.contains(SetupEvent::LinuxdStarted(pid)) ==> pid == linuxd,
        events.last() == SetupEvent::GatewayFailed || events.last() == SetupEvent::NanovmFailed,
    ensures
        ({
            let (left, action) = setup_after(system, events);
            &&& action == if events.last() == SetupEvent::GatewayFailed {
                SetupActionView::CleanUpAndExit(1)
            } else {
                SetupActionView::CleanUp
            }
            &&& cleanup_actions(left).contains(
                CleanupActionView::Interrupt {
                    component: Component::Linuxd,
                    pid: signed_pid(linuxd) as i32,
                },
            )
        }),
{
    lemma_linuxd_on_record(system, events, linuxd);
    let left = setup_after(system, events).0;
    let actions = cleanup_actions(left);
    let i = interrupt(Component::Nanovm, left.nanovm).len() as int;
    assert(actions[i] == CleanupActionView::Interrupt {
        component: Component::Linuxd,
        pid: signed_pid(linuxd) as i32,
    });
}

/// linuxd stays on record once it was started.
proof fn lemma_linuxd_on_record(system: BenchmarkView, events: Seq<SetupEvent>, linuxd: u32)
    requires
        events.contains(SetupEvent::LinuxdStarted(linuxd)),
        forall|pid: u32|
            #[trigger] events.contains(SetupEvent::LinuxdStarted(pid)) ==> pid == linuxd,
    ensures
        setup_after(system, events).0.linuxd == Some(linuxd),
    decreases events.len(),
{
    let earlier = events.drop_last();
    if let SetupEvent::LinuxdStarted(pid) = events.last() {
        assert(events.contains(SetupEvent::LinuxdStarted(pid)));
    } else {
        let i = choose|i: int|
            0 <= i < events.len() && events[i] == SetupEvent::LinuxdStarted(linuxd);
        assert(earlier[i] == SetupEvent::LinuxdStarted(linuxd));
        assert forall|pid: u32|
            #[trigger] earlier.contains(SetupEvent::LinuxdStarted(pid)) implies pid == linuxd by {
            let j = choose|j: int|
                0 <= j < earlier.len() && earlier[j] == SetupEvent::LinuxdStarted(pid);
            assert(events[j] == SetupEvent::LinuxdStarted(pid));
            assert(events.contains(SetupEvent::LinuxdStarted(pid)));
        }
        lemma_linuxd_on_record(system, earlier, linuxd);
    }
}

/// A nano VM that was on record before a set-up is signalled when the system is taken
/// down after it, unless the set-up started another.
pub proof fn law_earlier_nanovm_is_signalled(
    system: BenchmarkView,
    events: Seq<SetupEvent>,
    nanovm: u32,
)
    requires
        system.nanovm == Some(nanovm),
        forall|pid: u32| !#[trigger] events.contains(SetupEvent::NanovmStarted(pid)),
    ensures
        cleanup_actions(setup_after(system, events).0).contains(
            CleanupActionView::Interrupt {
                component: Component::Nanovm,
                pid: signed_pid(nanovm) as i32,
            },
        ),
{
    lemma_nanovm_on_record(system, events);
    assert(cleanup_actions(setup_after(system, events).0)[0] == CleanupActionView::Interrupt {
        component: Component::Nanovm,
        pid: signed_pid(nanovm) as i32,
    });
}

/// What is on record of the nano VM stays so until one is started.
proof fn lemma_nanovm_on_record(system: BenchmarkView, events: Seq<SetupEvent>)
    requires
        forall|pid: u32| !#[trigger] events.contains(SetupEvent::NanovmStarted(pid)),
    ensures
        setup_after(system, events).0.nanovm == system.nanovm,
    decreases events.len(),
{
    if events.len() > 0 {
        let earlier = events.drop_last();
        assert forall|pid: u32| !#[trigger] earlier.contains(SetupEvent::NanovmStarted(pid)) by {
            if earlier.contains(SetupEvent::NanovmStarted(pid)) {
                let i = choose|i: int|
                    0 <= i < earlier.len() && earlier[i] == SetupEvent::NanovmStarted(pid);
                assert(events[i] == SetupEvent::NanovmStarted(pid));
                assert(events.contains(SetupEvent::NanovmStarted(pid)));
            }
        }
        lemma_nanovm_on_record(system, earlier);
        if let SetupEvent::NanovmStarted(pid) = events.last() {
            assert(events.contains(SetupEvent::NanovmStarted(pid)));
        }
    }
}

/// An outcome is logged as an error when, and only when, it is one: a failed signal, or
/// a socket file that is there and could not be removed.
pub proof fn law_cleanup_errors_are_logged(
    action: CleanupActionView,
    outcome: CleanupOutcome,
    reason: Seq<char>,
)
    ensures
        is_cleanup_error(action, outcome) <==> (cleanup_log(action, outcome, reason) matches Some(
            line,
        ) && line.level == LogLevel::Error),
{
}

/// A system that is fully up is taken down in order: the nano VM, linuxd, the
/// socket file.
pub proof fn law_cleanup_order(system: BenchmarkView, linuxd: u32, nanovm: u32)
    requires
        system.linuxd == Some(linuxd),
        system.nanovm == Some(nanovm),
    ensures
        cleanup_actions(system) == seq![
            CleanupActionView::Interrupt {
                component: Component::Nanovm,
                pid: signed_pid(nanovm) as i32,
            },
            CleanupActionView::Interrupt {
                component: Component::Linuxd,
                pid: signed_pid(linuxd) as i32,
            },
            CleanupActionView::RemoveSocket(system.linuxd_address),
        ],
{
    assert(cleanup_actions(system) =~= seq![
        CleanupActionView::Interrupt {
            component: Component::Nanovm,
            pid: signed_pid(nanovm) as i32,
        },
        CleanupActionView::Interrupt {
            component: Component::Linuxd,
            pid: signed_pid(linuxd) as i32,
        },
        CleanupActionView::RemoveSocket(system.linuxd_address),
    ]);
}

/// A new system has the same cores and addresses whatever it measures, and nothing of it
/// runs.
pub proof fn law_idle_benchmark(flavour: BenchmarkFlavour)
    ensures
        idle_benchmark(flavour).linuxd_cores == "10-14"@,
        idle_benchmark(flavour).nanovm_cores == "15-19"@,
        idle_benchmark(flavour).flavour == flavour,
        idle_benchmark(flavour).gateway_address == "127.0.0.1:9999"@,
        idle_benchmark(flavour).linuxd_address == "/tmp/nanvix_datapath_ubench.socket"@,
        idle_benchmark(flavour).linuxd is None,
        idle_benchmark(flavour).nanovm is None,
        !idle_benchmark(flavour).gateway,
{
}

/// The view of a system shows each of its parts.
pub proof fn law_benchmark_view(system: Benchmark)
    ensures
        system@.linuxd_cores == system.hwloc.linuxd_core_str@,
        system@.nanovm_cores == system.hwloc.nanovm_core_str@,
        system@.flavour == system.flavour,
        system@.gateway_address == system.gateway_address@,
        system@.linuxd_address == system.linuxd_address@,
        system@.linuxd == system.linuxd,
        system@.nanovm == system.nanovm,
        system@.gateway == system.gateway,
{
}

/// The processes of a system are started on its cores, for its benchmark and with its
/// addresses, whatever else is on record of it.
pub proof fn law_system_commands(system: BenchmarkView)
    ensures
        system.linuxd_command() == linuxd_command_line(
            system.linuxd_cores,
            system.linuxd_address,
            system.gateway_address,
        ),
        system.nanovm_command() == nanovm_command_line(
            system.nanovm_cores,
            system.flavour,
            system.linuxd_address,
        ),
{
}

/// A step of the set-up puts on record exactly what was reported: a process that was
/// started under its identifier, and the connection of the gateway. Everything else of
/// the system stays as it is.
pub proof fn law_setup_records_what_happened(system: BenchmarkView, event: SetupEvent)
    ensures
        ({
            let next = setup_step(system, event).0;
            &&& next.linuxd_cores == system.linuxd_cores
            &&& next.nanovm_cores == system.nanovm_cores
            &&& next.flavour == system.flavour
            &&& next.gateway_address == system.gateway_address
            &&& next.linuxd_address == system.linuxd_address
            &&& next.linuxd == match event {
                SetupEvent::LinuxdStarted(pid) => Some(pid),
                _ => system.linuxd,
            }
            &&& next.nanovm == match event {
                SetupEvent::NanovmStarted(pid) => Some(pid),
                _ => system.nanovm,
            }
            &&& next.gateway == (system.gateway || event == SetupEvent::GatewayConnected)
        }),
{
}

/// What a step of the set-up asks for depends on what was reported, and on the
/// configuration of the system alone: whatever ran before, the gateway is bound to its
/// address, linuxd and the nano VM are started by their command lines, and a failure leads
/// to a clean-up, which ends the program if the gateway is what failed.
pub proof fn law_setup_asks_for_the_next_part(
    system: BenchmarkView,
    event: SetupEvent,
    action: SetupActionView,
)
    requires
        action == setup_step(system, event).1,
    ensures
        event is Begin <==> action is BindGateway,
        event is GatewayBound <==> action is StartLinuxd,
        event is LinuxdStarted <==> action is AcceptGateway,
        event is GatewayConnected <==> action is StartNanovm,
        event is GatewayFailed <==> action is CleanUpAndExit,
        event is NanovmStarted <==> action is Done,
        event is NanovmFailed <==> action is CleanUp,
        action matches SetupActionView::BindGateway(address) ==> address == system.gateway_address,
        action matches SetupActionView::StartLinuxd(command) ==> command == linuxd_command_line(
            system.linuxd_cores,
            system.linuxd_address,
            system.gateway_address,
        ),
        action matches SetupActionView::StartNanovm(command) ==> command == nanovm_command_line(
            system.nanovm_cores,
            system.flavour,
            system.linuxd_address,
        ),
        action matches SetupActionView::CleanUpAndExit(code) ==> code == 1,
{
}

/// The view of an action of the set-up shows what it is about.
pub proof fn law_setup_action_view(action: SetupAction)
    ensures
        match action {
            SetupAction::BindGateway(address) => action@ matches SetupActionView::BindGateway(shown)
                && shown == address@,
            SetupAction::StartLinuxd(command) => action@ matches SetupActionView::StartLinuxd(shown)
                && shown == command@,
            SetupAction::AcceptGateway => action@ is AcceptGateway,
            SetupAction::StartNanovm(command) => action@ matches SetupActionView::StartNanovm(shown)
                && shown == command@,
            SetupAction::CleanUpAndExit(code) => action@ matches SetupActionView::CleanUpAndExit(
                shown,
            ) && shown == code,
            SetupAction::CleanUp => action@ is CleanUp,
            SetupAction::Done => action@ is Done,
        },
{
}

/// A process identifier read as a signed number fits into 32 bits, and differs from the
/// identifier by a multiple of the range of 32 bits.
pub proof fn law_signed_pid(pid: u32)
    ensures
        i32::MIN <= signed_pid(pid) <= i32::MAX,
        (pid - signed_pid(pid)) % 0x1_0000_0000 == 0,
        pid <= i32::MAX ==> signed_pid(pid) == pid,
{
}

/// Taking a system down always ends with the removal of the socket of linuxd. Before
/// that, exactly the processes on record are interrupted, the nano VM before linuxd, each
/// under its own identifier.
pub proof fn law_cleanup_covers_the_system(system: BenchmarkView)
    ensures
        ({
            let actions = cleanup_actions(system);
            let last = actions.len() - 1;
            &&& last == (if system.nanovm is Some {
                1int
            } else {
                0
            }) + (if system.linuxd is Some {
                1int
            } else {
                0
            })
            &&& actions[last] == CleanupActionView::RemoveSocket(system.linuxd_address)
            &&& system.nanovm matches Some(process) ==> (actions[0] matches
                CleanupActionView::Interrupt { component, pid } && component == Component::Nanovm
                && (process - pid) % 0x1_0000_0000 == 0)
            &&& system.linuxd matches Some(process) ==> (actions[last - 1] matches
                CleanupActionView::Interrupt { component, pid } && component == Component::Linuxd
                && (process - pid) % 0x1_0000_0000 == 0)
        }),
{
}

/// The view of a cleanup action shows what it is about.
pub proof fn law_cleanup_action_view(action: CleanupAction)
    ensures
        match action {
            CleanupAction::Interrupt { component, pid } => action@ matches
                CleanupActionView::Interrupt { component: shown, pid: target } && shown == component
                && target == pid,
            CleanupAction::RemoveSocket(path) => action@ matches CleanupActionView::RemoveSocket(
                shown,
            ) && shown == path@,
        },
{
}

/// The views of cleanup actions are theirs, one by one.
pub proof fn law_cleanup_views(actions: Seq<CleanupAction>)
    ensures
        cleanup_views(actions).len() == actions.len(),
        forall|i: int|
            0 <= i < actions.len() ==> #[trigger] cleanup_views(actions)[i] == actions[i]@,
{
}

/// What is logged about a signal: nothing if it was sent, and else an error that ends in
/// the reason, whatever process it was for.
pub proof fn law_signal_log(
    component: Component,
    pid: i32,
    outcome: CleanupOutcome,
    reason: Seq<char>,
)
    ensures
        ({
            let log = cleanup_log(
                CleanupActionView::Interrupt { component, pid },
                outcome,
                reason,
            );
            &&& log is None <==> outcome == CleanupOutcome::Done
            &&& log matches Some(line) ==> {
                &&& line.level == LogLevel::Error
                &&& line.text == (match component {
                    Component::Nanovm => "error sending SIGINT to nano VM: "@,
                    Component::Linuxd => "error sending linuxd to nano VM: "@,
                }) + reason
            }
        }),
{
}

/// What is logged about the removal of the socket file: always something, and an error
/// only if the file is there and stays. A failure is logged with the file and the reason.
pub proof fn law_removal_log(path: Seq<char>, outcome: CleanupOutcome, reason: Seq<char>)
    ensures
        ({
            let log = cleanup_log(CleanupActionView::RemoveSocket(path), outcome, reason);
            &&& log matches Some(line) && {
                &&& line.level == LogLevel::Error <==> outcome == CleanupOutcome::Failed
                &&& outcome == CleanupOutcome::Done ==> line.text == "removed linuxd socket at: "@
                    + path
                &&& outcome == CleanupOutcome::NotFound ==> line.text == "linuxd socket not found"@
                &&& outcome == CleanupOutcome::Failed ==> line.text
                    == "failed to delete linuxd socket file (file: "@ + path + " - error: "@ + reason
                    + ")"@
            }
        }),
{
}

/// The view of a line for the log shows its level and its text.
pub proof fn law_log_line_view(line: LogLine)
    ensures
        line@.level == line.level,
        line@.text == line.text@,
{
}

/// The announcement of a set-up holds the name of the benchmark between fixed words, and
/// the cold and the warm start need the same build of Nanvix.
pub proof fn law_announcements(flavour: BenchmarkFlavour)
    ensures
        setup_announcement(flavour).take(11) == "Setting up "@,
        setup_announcement(flavour).subrange(11, 11int + flavour_name(flavour).len()) == flavour_name(
            flavour,
        ),
        setup_announcement(flavour).skip(11int + flavour_name(flavour).len()) == " benchmark..."@,
        build_warning(flavour) == if flavour == BenchmarkFlavour::EchoBreakdown {
            "WARNING: this benchmark requires Nanvix (re-) compilation with TIMESTAMP_MSG=yes"@
        } else {
            "WARNING: this benchmark requires Nanvix (re-) compilation with RELEASE=yes LOG_LEVEL=panic"@
        },
{
    reveal_strlit("Setting up ");
    let text = setup_announcement(flavour);
    let name = flavour_name(flavour);
    assert(text.take(11) =~= "Setting up "@);
    assert(text.subrange(11, 11int + name.len()) =~= name);
    assert(text.skip(11int + name.len()) =~= " benchmark..."@);
}

} // verus!
