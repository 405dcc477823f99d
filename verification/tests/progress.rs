use nanvix_bench::benchmark::{Benchmark, CleanupAction, SetupEvent};
use nanvix_bench::breakdown::breakdown_lines;
use nanvix_bench::flavour::BenchmarkFlavour;
use nanvix_bench::runs::{
    echo_payload, is_echo, socket_of_iteration, ColdStartAction, ColdStartEvent, EchoAction,
    EchoEvent, EchoFailure, LatencyRun, WarmStartAction, WarmStartEvent, COLD_START_ITERATIONS,
    WARM_START_ITERATIONS,
};
use nanvix_bench::wire::frame_message;

const PAYLOAD: [u8; 14] = [10, 0, 0, 0, 7, 7, 7, 7, 7, 7, 7, 7, 7, 7];

#[test]
fn payload_of_the_latency_benchmarks() {
    assert_eq!(echo_payload(), PAYLOAD.to_vec());
    assert!(is_echo(&echo_payload(), &PAYLOAD.to_vec()));
    assert!(!is_echo(&echo_payload(), &PAYLOAD[..13].to_vec()));
    assert!(!is_echo(&echo_payload(), &vec![0; 14]));
}

#[test]
fn sockets_of_iterations_differ() {
    assert_eq!(socket_of_iteration(0), "/tmp/nanvix_coldstart_ubench_0.socket");
    assert_eq!(socket_of_iteration(999), "/tmp/nanvix_coldstart_ubench_999.socket");
    assert_ne!(socket_of_iteration(1), socket_of_iteration(11));
}

#[test]
fn cold_start_runs_through() {
    let mut system = Benchmark::new(BenchmarkFlavour::ColdStart);
    let mut run = LatencyRun::new();
    let action = system.run_cold_start(&mut run, ColdStartEvent::Begin);
    assert!(matches!(action, ColdStartAction::CleanUp));
    let mut action = system.run_cold_start(&mut run, ColdStartEvent::CleanedUp);
    for i in 0..COLD_START_ITERATIONS {
        assert!(matches!(action, ColdStartAction::SetUp));
        assert_eq!(system.linuxd_address, socket_of_iteration(i));
        system.setup(SetupEvent::LinuxdStarted(i as u32));
        action = system.run_cold_start(&mut run, ColdStartEvent::SetUp);
        match action {
            ColdStartAction::Exchange { payload, response_len } => {
                assert_eq!(payload, PAYLOAD.to_vec());
                assert_eq!(response_len, 14);
            }
            _ => panic!("no exchange"),
        }
        let response = PAYLOAD.to_vec();
        let micros = (i as u128 * 7 + 3) % 1000;
        action = system.run_cold_start(&mut run, ColdStartEvent::Exchanged { micros, response });
        assert!(matches!(
            action,
            ColdStartAction::CleanUpAndRest { echoed: true, millis: 10 }
        ));
        action = system.run_cold_start(&mut run, ColdStartEvent::Rested);
    }
    match action {
        ColdStartAction::Report(lines) => assert_eq!(
            lines,
            vec!["First req: 3 us", "p50: 500 us", "p95: 950 us", "p99: 990 us"]
        ),
        _ => panic!("no report"),
    }
}

#[test]
fn cold_start_removes_the_socket_it_binds() {
    let mut system = Benchmark::new(BenchmarkFlavour::ColdStart);
    let mut run = LatencyRun::new();
    run.latencies = vec![1, 2, 3];
    system.run_cold_start(&mut run, ColdStartEvent::Rested);
    let socket = "/tmp/nanvix_coldstart_ubench_3.socket";
    assert_eq!(system.start_linuxd().args[4], socket);
    system.setup(SetupEvent::LinuxdStarted(8));
    system.setup(SetupEvent::GatewayConnected);
    system.setup(SetupEvent::NanovmFailed);
    let response = PAYLOAD.to_vec();
    system.run_cold_start(&mut run, ColdStartEvent::Exchanged { micros: 4, response });
    assert!(matches!(
        system.cleanup().last(),
        Some(CleanupAction::RemoveSocket(p)) if p == socket
    ));
    assert_eq!(system.gateway_address, "127.0.0.1:9999");
    assert_eq!(system.linuxd, Some(8));
}

#[test]
fn cold_start_notices_a_wrong_answer() {
    let mut system = Benchmark::new(BenchmarkFlavour::ColdStart);
    let mut run = LatencyRun::new();
    let response = vec![0u8; 14];
    let action = system.run_cold_start(&mut run, ColdStartEvent::Exchanged { micros: 5, response });
    assert!(matches!(action, ColdStartAction::CleanUpAndRest { echoed: false, .. }));
    assert_eq!(run.latencies, vec![5]);
    let action = system.run_cold_start(&mut run, ColdStartEvent::ExchangeFailed);
    assert!(matches!(action, ColdStartAction::Stop));
    system.run_cold_start(&mut run, ColdStartEvent::Begin);
    assert!(run.latencies.is_empty());
}

#[test]
fn warm_start_runs_through() {
    let system = Benchmark::new(BenchmarkFlavour::WarmStart);
    let mut run = LatencyRun::new();
    let mut action = system.run_warm_start(&mut run, WarmStartEvent::Begin);
    for i in 0..WARM_START_ITERATIONS {
        match action {
            WarmStartAction::Exchange { payload, response_len } => {
                assert_eq!(payload, PAYLOAD.to_vec());
                assert_eq!(response_len, 14);
            }
            _ => panic!("no exchange"),
        }
        let response = PAYLOAD.to_vec();
        let micros = (WARM_START_ITERATIONS - 1 - i) as u128;
        action = system.run_warm_start(&mut run, WarmStartEvent::Exchanged { micros, response });
        assert!(matches!(action, WarmStartAction::Record { echoed: true }));
        action = system.run_warm_start(&mut run, WarmStartEvent::Recorded);
    }
    match action {
        WarmStartAction::Report(lines) => assert_eq!(
            lines,
            vec![
                "First req (includes nano VM boot time): 9999 us",
                "p50: 5000 us",
                "p95: 9500 us",
                "p99: 9900 us",
            ]
        ),
        _ => panic!("no report"),
    }
}

#[test]
fn warm_start_stops_on_failure() {
    let system = Benchmark::new(BenchmarkFlavour::WarmStart);
    let mut run = LatencyRun::new();
    let response = vec![1u8];
    let action = system.run_warm_start(&mut run, WarmStartEvent::Exchanged { micros: 1, response });
    assert!(matches!(action, WarmStartAction::Record { echoed: false }));
    let action = system.run_warm_start(&mut run, WarmStartEvent::ExchangeFailed);
    assert!(matches!(action, WarmStartAction::Stop));
}

#[test]
fn echo_breakdown_runs_through() {
    let system = Benchmark::new(BenchmarkFlavour::EchoBreakdown);
    match system.run_echo_breakdown(EchoEvent::Begin) {
        EchoAction::Send { line, frame } => {
            let zeros: Vec<String> = vec!["00".to_string(); 32];
            assert_eq!(line, format!("Raw Payload: {zeros:?}"));
            assert_eq!(frame, frame_message(&[0u8; 33]));
        }
        _ => panic!("nothing sent"),
    }
    assert!(matches!(
        system.run_echo_breakdown(EchoEvent::Sent),
        EchoAction::Receive(4)
    ));
    let mut response = vec![0u8; 33];
    response[..7].copy_from_slice(&[3, 100, 0, 130, 0, 44, 1]);
    assert!(matches!(
        system.run_echo_breakdown(EchoEvent::Received(vec![33, 0, 0, 0])),
        EchoAction::Receive(33)
    ));
    match system.run_echo_breakdown(EchoEvent::Received(frame_message(&response))) {
        EchoAction::Report(lines) => {
            let hex: Vec<String> = response[1..].iter().map(|b| format!("{b:02x}")).collect();
            assert_eq!(
                lines,
                vec![
                    format!("Raw Payload: {hex:?}"),
                    "0  | Timestamp   100 us | First Step".to_string(),
                    "1  | Timestamp   130 us | Delta    30 us".to_string(),
                    "2  | Timestamp   300 us | Delta   170 us".to_string(),
                    "Total time elapsed: 200 us".to_string(),
                ]
            );
        }
        _ => panic!("no report"),
    }
}

/// Feeds the echo breakdown from a stream, as many bytes at a time as it asks for.
fn break_down_stream(stream: &[u8]) -> (usize, Vec<String>) {
    let system = Benchmark::new(BenchmarkFlavour::EchoBreakdown);
    let mut taken = 0;
    let mut event = EchoEvent::Sent;
    loop {
        event = match system.run_echo_breakdown(event) {
            EchoAction::Receive(len) => {
                taken += len;
                EchoEvent::Received(stream[..taken].to_vec())
            }
            EchoAction::Report(lines) => return (taken, lines),
            _ => panic!("gave up"),
        };
    }
}

#[test]
fn response_is_as_long_as_it_announces() {
    let mut long = vec![0u8; 41];
    long[0] = 20;
    long[39] = 9;
    for response in [vec![1, 5, 0], long] {
        let mut stream = frame_message(&response);
        stream.extend_from_slice(&[1; 50]);
        let (taken, lines) = break_down_stream(&stream);
        assert_eq!(taken, 4 + response.len());
        assert_eq!(lines, breakdown_lines(&response));
    }
    let (_, lines) = break_down_stream(&[3, 0, 0, 0, 1, 5, 0, 9, 9]);
    assert_eq!(
        lines,
        vec![
            "Raw Payload: [\"05\", \"00\"]",
            "0  | Timestamp     5 us | First Step",
            "Total time elapsed: 0 us",
        ]
    );
}

#[test]
fn echo_breakdown_asks_for_what_is_missing() {
    let system = Benchmark::new(BenchmarkFlavour::EchoBreakdown);
    assert!(matches!(
        system.run_echo_breakdown(EchoEvent::Received(vec![1, 0])),
        EchoAction::Receive(2)
    ));
    assert!(matches!(
        system.run_echo_breakdown(EchoEvent::Received(vec![34, 0, 0, 0, 1])),
        EchoAction::Receive(33)
    ));
}

#[test]
fn echo_breakdown_gives_up() {
    let system = Benchmark::new(BenchmarkFlavour::EchoBreakdown);
    let failure = |event| match system.run_echo_breakdown(event) {
        EchoAction::Stop(failure) => failure,
        _ => panic!("went on"),
    };
    assert_eq!(failure(EchoEvent::ExchangeFailed), EchoFailure::Exchange);
    assert_eq!(
        failure(EchoEvent::Received(vec![0, 0, 0, 0])),
        EchoFailure::EmptyMessage
    );
}
