//! The three benchmarks as they proceed: what to do next, given how the last thing
//! went. Exchanging messages, timing them and printing is left to the caller.

use crate::benchmark::{
    cleanup_actions, law_setup_keeps_configuration, setup_after, Benchmark, BenchmarkView,
    CleanupActionView, SetupEvent,
};
use crate::breakdown::{
    breakdown_lines, breakdown_text, raw_payload, raw_payload_line, request, DATA_SIZE, HEADER_SIZE,
};
use crate::latency::{summarize, summary_lines, summary_of};
use crate::launch::linuxd_command_line;
use crate::text::{
    decimal, decimal_value, law_decimal_digits, law_decimal_injective, law_decimal_reads_back, texts,
    to_decimal,
};
use crate::wire::{
    frame_len, frame_message, framed, holds_message, law_announced_message, law_framed_len,
    law_message_received_exactly, law_missing_len, law_no_message_without_length, message_in,
    missing_bytes, missing_len, read_message, LENGTH_SIZE,
};
use vstd::prelude::*;
use vstd::string::*;

verus! {

/// Number of systems that the cold start sets up.
pub const COLD_START_ITERATIONS: usize = 1000;

/// Number of requests that the warm start sends.
pub const WARM_START_ITERATIONS: usize = 10000;

/// Milliseconds that the cold start leaves a system to go down.
pub const REST_MILLIS: u64 = 10;

/// Number of bytes that a latency benchmark sends.
pub const ECHO_SIZE: usize = 10;

/// The message that the latency benchmarks send.
pub open spec fn echo_data() -> Seq<u8> {
    Seq::new(ECHO_SIZE as nat, |i: int| 7u8)
}

/// The socket of linuxd in one iteration of the cold start.
pub open spec fn cold_start_socket(iteration: nat) -> Seq<char> {
    "/tmp/nanvix_coldstart_ubench_"@ + decimal(iteration) + ".socket"@
}

/// The latencies that a benchmark has measured so far, in microseconds.
#[derive(Debug)]
pub struct LatencyRun {
    /// The latencies, in the order they were measured.
    pub latencies: Vec<u128>,
}

impl View for LatencyRun {
    type V = Seq<u128>;

    open spec fn view(&self) -> Seq<u128> {
        self.latencies@
    }
}

/// How a step of the cold start went.
#[derive(Debug)]
pub enum ColdStartEvent {
    /// The benchmark begins.
    Begin,
    /// What was running before was taken down.
    CleanedUp,
    /// The system was set up; its clock runs since the set-up began.
    SetUp,
    /// The request was answered.
    Exchanged {
        /// Microseconds on the clock.
        micros: u128,
        /// What came back.
        response: Vec<u8>,
    },
    /// The request could not be sent or its answer not be received.
    ExchangeFailed,
    /// The system was taken down and had time to go down.
    Rested,
}

/// How a step of the cold start went, with bytes as sequences.
#[verifier::ext_equal]
pub enum ColdStartEventView {
    /// The benchmark begins.
    Begin,
    /// What was running before was taken down.
    CleanedUp,
    /// The system was set up.
    SetUp,
    /// The request was answered.
    Exchanged {
        /// Microseconds on the clock.
        micros: u128,
        /// What came back.
        response: Seq<u8>,
    },
    /// The request could not be sent or its answer not be received.
    ExchangeFailed,
    /// The system was taken down and had time to go down.
    Rested,
}

impl View for ColdStartEvent {
    type V = ColdStartEventView;

    open spec fn view(&self) -> ColdStartEventView {
        match self {
            ColdStartEvent::Begin => ColdStartEventView::Begin,
            ColdStartEvent::CleanedUp => ColdStartEventView::CleanedUp,
            ColdStartEvent::SetUp => ColdStartEventView::SetUp,
            ColdStartEvent::Exchanged { micros, response } => ColdStartEventView::Exchanged {
                micros: *micros,
                response: response@,
            },
            ColdStartEvent::ExchangeFailed => ColdStartEventView::ExchangeFailed,
            ColdStartEvent::Rested => ColdStartEventView::Rested,
        }
    }
}

/// What the cold start has to do next.
#[derive(Debug)]
pub enum ColdStartAction {
    /// Take the system down.
    CleanUp,
    /// Start the clock and set the system up.
    SetUp,
    /// Send bytes, receive as many as stated, and read the clock.
    Exchange {
        /// The bytes to send.
        payload: Vec<u8>,
        /// The number of bytes to receive.
        response_len: usize,
    },
    /// Take the system down and wait.
    CleanUpAndRest {
        /// Whether what came back is what was sent.
        echoed: bool,
        /// Milliseconds to wait.
        millis: u64,
    },
    /// Print lines; the benchmark is over.
    Report(Vec<String>),
    /// Give up: the exchange failed.
    Stop,
}

/// What the cold start has to do next, with bytes and texts as sequences.
#[verifier::ext_equal]
pub enum ColdStartActionView {
    /// Take the system down.
    CleanUp,
    /// Start the clock and set the system up.
    SetUp,
    /// Send bytes, receive as many as stated, and read the clock.
    Exchange {
        /// The bytes to send.
        payload: Seq<u8>,
        /// The number of bytes to receive.
        response_len: usize,
    },
    /// Take the system down and wait.
    CleanUpAndRest {
        /// Whether what came back is what was sent.
        echoed: bool,
        /// Milliseconds to wait.
        millis: u64,
    },
    /// Print lines; the benchmark is over.
    Report(Seq<Seq<char>>),
    /// Give up: the exchange failed.
    Stop,
}

impl View for ColdStartAction {
    type V = ColdStartActionView;

    open spec fn view(&self) -> ColdStartActionView {
        match self {
            ColdStartAction::CleanUp => ColdStartActionView::CleanUp,
            ColdStartAction::SetUp => ColdStartActionView::SetUp,
            ColdStartAction::Exchange { payload, response_len } => ColdStartActionView::Exchange {
                payload: payload@,
                response_len: *response_len,
            },
            ColdStartAction::CleanUpAndRest { echoed, millis } => ColdStartActionView::CleanUpAndRest {
                echoed: *echoed,
                millis: *millis,
            },
            ColdStartAction::Report(lines) => ColdStartActionView::Report(texts(lines@)),
            ColdStartAction::Stop => ColdStartActionView::Stop,
        }
    }
}

/// The lines that the cold start reports.
pub open spec fn cold_start_report(latencies: Seq<u128>) -> Seq<Seq<char>> {
    summary_lines("First req: "@, summary_of(latencies))
}

/// The start of the next iteration of the cold start, on a socket of its own, or
/// the report once all iterations are through.
pub open spec fn next_cold_start(system: BenchmarkView, latencies: Seq<u128>) -> (
    BenchmarkView,
    ColdStartActionView,
) {
    if latencies.len() < COLD_START_ITERATIONS {
        (
            BenchmarkView { linuxd_address: cold_start_socket(latencies.len()), ..system },
            ColdStartActionView::SetUp,
        )
    } else {
        (system, ColdStartActionView::Report(cold_start_report(latencies)))
    }
}

/// One step of the cold start: every iteration sets a system up, has it echo one
/// message, and takes it down.
pub open spec fn cold_start_step(
    system: BenchmarkView,
    latencies: Seq<u128>,
    event: ColdStartEventView,
) -> (BenchmarkView, Seq<u128>, ColdStartActionView) {
    match event {
        ColdStartEventView::Begin => (system, Seq::empty(), ColdStartActionView::CleanUp),
        ColdStartEventView::CleanedUp | ColdStartEventView::Rested => {
            let (next, action) = next_cold_start(system, latencies);
            (next, latencies, action)
        },
        ColdStartEventView::SetUp => (
            system,
            latencies,
            ColdStartActionView::Exchange {
                payload: framed(echo_data()),
                response_len: (LENGTH_SIZE + ECHO_SIZE) as usize,
            },
        ),
        ColdStartEventView::Exchanged { micros, response } => (
            system,
            latencies.push(micros),
            ColdStartActionView::CleanUpAndRest {
                echoed: response == framed(echo_data()),
                millis: REST_MILLIS,
            },
        ),
        ColdStartEventView::ExchangeFailed => (system, latencies, ColdStartActionView::Stop),
    }
}

/// How a step of the warm start went.
#[derive(Debug)]
pub enum WarmStartEvent {
    /// The benchmark begins.
    Begin,
    /// The request was answered.
    Exchanged {
        /// Microseconds from sending to receiving.
        micros: u128,
        /// What came back.
        response: Vec<u8>,
    },
    /// The request could not be sent or its answer not be received.
    ExchangeFailed,
    /// The answer was taken note of.
    Recorded,
}

/// How a step of the warm start went, with bytes as sequences.
#[verifier::ext_equal]
pub enum WarmStartEventView {
    /// The benchmark begins.
    Begin,
    /// The request was answered.
    Exchanged {
        /// Microseconds from sending to receiving.
        micros: u128,
        /// What came back.
        response: Seq<u8>,
    },
    /// The request could not be sent or its answer not be received.
    ExchangeFailed,
    /// The answer was taken note of.
    Recorded,
}

impl View for WarmStartEvent {
    type V = WarmStartEventView;

    open spec fn view(&self) -> WarmStartEventView {
        match self {
            WarmStartEvent::Begin => WarmStartEventView::Begin,
            WarmStartEvent::Exchanged { micros, response } => WarmStartEventView::Exchanged {
                micros: *micros,
                response: response@,
            },
            WarmStartEvent::ExchangeFailed => WarmStartEventView::ExchangeFailed,
            WarmStartEvent::Recorded => WarmStartEventView::Recorded,
        }
    }
}

/// What the warm start has to do next.
#[derive(Debug)]
pub enum WarmStartAction {
    /// Start the clock, send bytes, receive as many as stated, and read the clock.
    Exchange {
        /// The bytes to send.
        payload: Vec<u8>,
        /// The number of bytes to receive.
        response_len: usize,
    },
    /// Take note that one more request was answered.
    Record {
        /// Whether what came back is what was sent.
        echoed: bool,
    },
    /// Print lines; the benchmark is over.
    Report(Vec<String>),
    /// Give up: the exchange failed.
    Stop,
}

/// What the warm start has to do next, with bytes and texts as sequences.
#[verifier::ext_equal]
pub enum WarmStartActionView {
    /// Start the clock, send bytes, receive as many as stated, and read the clock.
    Exchange {
        /// The bytes to send.
        payload: Seq<u8>,
        /// The number of bytes to receive.
        response_len: usize,
    },
    /// Take note that one more request was answered.
    Record {
        /// Whether what came back is what was sent.
        echoed: bool,
    },
    /// Print lines; the benchmark is over.
    Report(Seq<Seq<char>>),
    /// Give up: the exchange failed.
    Stop,
}

impl View for WarmStartAction {
    type V = WarmStartActionView;

    open spec fn view(&self) -> WarmStartActionView {
        match self {
            WarmStartAction::Exchange { payload, response_len } => WarmStartActionView::Exchange {
                payload: payload@,
                response_len: *response_len,
            },
            WarmStartAction::Record { echoed } => WarmStartActionView::Record { echoed: *echoed },
            WarmStartAction::Report(lines) => WarmStartActionView::Report(texts(lines@)),
            WarmStartAction::Stop => WarmStartActionView::Stop,
        }
    }
}

/// The lines that the warm start reports.
pub open spec fn warm_start_report(latencies: Seq<u128>) -> Seq<Seq<char>> {
    summary_lines("First req (includes nano VM boot time): "@, summary_of(latencies))
}

/// The next request of the warm start, or the report once all are answered.
pub open spec fn next_warm_start(latencies: Seq<u128>) -> WarmStartActionView {
    if latencies.len() < WARM_START_ITERATIONS {
        WarmStartActionView::Exchange {
            payload: framed(echo_data()),
            response_len: (LENGTH_SIZE + ECHO_SIZE) as usize,
        }
    } else {
        WarmStartActionView::Report(warm_start_report(latencies))
    }
}

/// One step of the warm start, which has one running system echo a message over and
/// over.
pub open spec fn warm_start_step(latencies: Seq<u128>, event: WarmStartEventView) -> (
    Seq<u128>,
    WarmStartActionView,
) {
    match event {
        WarmStartEventView::Begin => (Seq::empty(), next_warm_start(Seq::empty())),
        WarmStartEventView::Exchanged { micros, response } => (
            latencies.push(micros),
            WarmStartActionView::Record { echoed: response == framed(echo_data()) },
        ),
        WarmStartEventView::ExchangeFailed => (latencies, WarmStartActionView::Stop),
        WarmStartEventView::Recorded => (latencies, next_warm_start(latencies)),
    }
}

/// How a step of the echo breakdown went.
#[derive(Debug)]
pub enum EchoEvent {
    /// The benchmark begins.
    Begin,
    /// The request was sent.
    Sent,
    /// Bytes were received: all that came back so far.
    Received(Vec<u8>),
    /// The request could not be sent or its answer not be received.
    ExchangeFailed,
}

/// How a step of the echo breakdown went, with bytes as sequences.
#[verifier::ext_equal]
pub enum EchoEventView {
    /// The benchmark begins.
    Begin,
    /// The request was sent.
    Sent,
    /// Bytes were received: all that came back so far.
    Received(Seq<u8>),
    /// The request could not be sent or its answer not be received.
    ExchangeFailed,
}

impl View for EchoEvent {
    type V = EchoEventView;

    open spec fn view(&self) -> EchoEventView {
        match self {
            EchoEvent::Begin => EchoEventView::Begin,
            EchoEvent::Sent => EchoEventView::Sent,
            EchoEvent::Received(frame) => EchoEventView::Received(frame@),
            EchoEvent::ExchangeFailed => EchoEventView::ExchangeFailed,
        }
    }
}

/// Why the echo breakdown gives up.
#[derive(Clone, Copy, Debug, PartialEq, Eq, Structural)]
pub enum EchoFailure {
    /// The exchange failed.
    Exchange,
    /// The message that came back does not even hold the number of timestamps.
    EmptyMessage,
}

/// What the echo breakdown has to do next.
#[derive(Debug)]
pub enum EchoAction {
    /// Print a line, then send bytes.
    Send {
        /// The line to print.
        line: String,
        /// The bytes to send.
        frame: Vec<u8>,
    },
    /// Receive as many more bytes as stated.
    Receive(usize),
    /// Print lines; the benchmark is over.
    Report(Vec<String>),
    /// Give up.
    Stop(EchoFailure),
}

/// What the echo breakdown has to do next, with bytes and texts as sequences.
#[verifier::ext_equal]
pub enum EchoActionView {
    /// Print a line, then send bytes.
    Send {
        /// The line to print.
        line: Seq<char>,
        /// The bytes to send.
        frame: Seq<u8>,
    },
    /// Receive as many more bytes as stated.
    Receive(usize),
    /// Print lines; the benchmark is over.
    Report(Seq<Seq<char>>),
    /// Give up.
    Stop(EchoFailure),
}

impl View for EchoAction {
    type V = EchoActionView;

    open spec fn view(&self) -> EchoActionView {
        match self {
            EchoAction::Send { line, frame } => EchoActionView::Send { line: line@, frame: frame@ },
            EchoAction::Receive(len) => EchoActionView::Receive(*len),
            EchoAction::Report(lines) => EchoActionView::Report(texts(lines@)),
            EchoAction::Stop(failure) => EchoActionView::Stop(*failure),
        }
    }
}

/// The message that the echo breakdown sends.
pub open spec fn breakdown_request() -> Seq<u8> {
    Seq::new(DATA_SIZE as nat, |i: int| 0u8)
}

/// One step of the echo breakdown: one request is sent, then the length of its answer
/// is received, then as many bytes as that length announces, and they are broken
/// down.
pub open spec fn echo_step(event: EchoEventView) -> EchoActionView {
    match event {
        EchoEventView::Begin => EchoActionView::Send {
            line: raw_payload(breakdown_request()),
            frame: framed(breakdown_request()),
        },
        EchoEventView::Sent => EchoActionView::Receive(LENGTH_SIZE),
        EchoEventView::Received(bytes) => if !holds_message(bytes) {
            EchoActionView::Receive(missing_len(bytes) as usize)
        } else if message_in(bytes).len() < HEADER_SIZE {
            EchoActionView::Stop(EchoFailure::EmptyMessage)
        } else {
            EchoActionView::Report(breakdown_text(message_in(bytes)))
        },
        EchoEventView::ExchangeFailed => EchoActionView::Stop(EchoFailure::Exchange),
    }
}

/// The bytes that the latency benchmarks send.
pub fn echo_payload() -> (payload: Vec<u8>)
    ensures
        payload@ == framed(echo_data()),
        payload@.len() == LENGTH_SIZE + ECHO_SIZE,
{
    let mut data: Vec<u8> = Vec::new();
    data.resize(ECHO_SIZE, 7);
    assert(data@ =~= echo_data());
    proof {
        law_framed_len(echo_data());
    }
    frame_message(data.as_slice())
}

/// The socket of linuxd in one iteration of the cold start.
pub fn socket_of_iteration(iteration: usize) -> (path: String)
    ensures
        path@ == cold_start_socket(iteration as nat),
{
    let mut path = "/tmp/nanvix_coldstart_ubench_".to_owned();
    path.append(to_decimal(iteration as u128).as_str());
    path.append(".socket");
    path
}

/// Whether what came back is what was sent.
pub fn is_echo(payload: &Vec<u8>, response: &Vec<u8>) -> (echoed: bool)
    ensures
        echoed == (payload@ == response@),
{
    let echoed = *payload == *response;
    assert(echoed ==> payload@ =~= response@);
    echoed
}

impl LatencyRun {
    /// A run that has measured nothing yet.
    pub fn new() -> (run: LatencyRun)
        ensures
            run@ == Seq::<u128>::empty(),
    {
        LatencyRun { latencies: Vec::new() }
    }
}

impl Benchmark {
    /// Runs the cold start step by step: takes note of how the last step went, and
    /// says what to do next.
    pub fn run_cold_start(&mut self, run: &mut LatencyRun, event: ColdStartEvent) -> (action:
        ColdStartAction)
        ensures
            (final(self)@, final(run)@, action@) == cold_start_step(old(self)@, old(run)@, event@),
    {
        match event {
            ColdStartEvent::Begin => {
                run.latencies = Vec::new();
                ColdStartAction::CleanUp
            },
            ColdStartEvent::CleanedUp | ColdStartEvent::Rested => {
                let iteration: usize = run.latencies.len();
                if iteration < COLD_START_ITERATIONS {
                    self.linuxd_address = socket_of_iteration(iteration);
                    ColdStartAction::SetUp
                } else {
                    ColdStartAction::Report(summarize(&run.latencies).lines("First req: "))
                }
            },
            ColdStartEvent::SetUp => ColdStartAction::Exchange {
                payload: echo_payload(),
                response_len: frame_len(ECHO_SIZE),
            },
            ColdStartEvent::Exchanged { micros, response } => {
                run.latencies.push(micros);
                ColdStartAction::CleanUpAndRest {
                    echoed: is_echo(&echo_payload(), &response),
                    millis: REST_MILLIS,
                }
            },
            ColdStartEvent::ExchangeFailed => ColdStartAction::Stop,
        }
    }

    /// Runs the warm start step by step: takes note of how the last step went, and
    /// says what to do next. The system is left as it is.
    pub fn run_warm_start(&self, run: &mut LatencyRun, event: WarmStartEvent) -> (action:
        WarmStartAction)
        ensures
            (final(run)@, action@) == warm_start_step(old(run)@, event@),
    {
        match event {
            WarmStartEvent::Begin => {
                run.latencies = Vec::new();
                WarmStartAction::Exchange {
                    payload: echo_payload(),
                    response_len: frame_len(ECHO_SIZE),
                }
            },
            WarmStartEvent::Exchanged { micros, response } => {
                run.latencies.push(micros);
                WarmStartAction::Record { echoed: is_echo(&echo_payload(), &response) }
            },
            WarmStartEvent::ExchangeFailed => WarmStartAction::Stop,
            WarmStartEvent::Recorded => {
                if run.latencies.len() < WARM_START_ITERATIONS {
                    WarmStartAction::Exchange {
                        payload: echo_payload(),
                        response_len: frame_len(ECHO_SIZE),
                    }
                } else {
                    WarmStartAction::Report(
                        summarize(&run.latencies).lines(
                            "First req (includes nano VM boot time): ",
                        ),
                    )
                }
            },
        }
    }

    /// Runs the echo breakdown step by step: given how the last step went, says what
    /// to do next. The system is left as it is.
    pub fn run_echo_breakdown(&self, event: EchoEvent) -> (action: EchoAction)
        ensures
            action@ == echo_step(event@),
    {
        match event {
            EchoEvent::Begin => {
                let data = request();
                EchoAction::Send {
                    line: raw_payload_line(data.as_slice()),
                    frame: frame_message(data.as_slice()),
                }
            },
            EchoEvent::Sent => EchoAction::Receive(LENGTH_SIZE),
            EchoEvent::Received(bytes) => match read_message(bytes.as_slice()) {
                Err(_) => EchoAction::Receive(missing_bytes(bytes.as_slice())),
                Ok(message) => {
                    if message.len() < HEADER_SIZE {
                        EchoAction::Stop(EchoFailure::EmptyMessage)
                    } else {
                        EchoAction::Report(breakdown_lines(message.as_slice()))
                    }
                },
            },
            EchoEvent::ExchangeFailed => EchoAction::Stop(EchoFailure::Exchange),
        }
    }
}

/// Every iteration of the cold start has a socket of its own.
pub proof fn law_cold_start_sockets_distinct(a: nat, b: nat)
    requires
        cold_start_socket(a) == cold_start_socket(b),
    ensures
        a == b,
{
    let prefix = "/tmp/nanvix_coldstart_ubench_"@;
    let suffix = ".socket"@;
    let pa = cold_start_socket(a);
    let pb = cold_start_socket(b);
    assert(decimal(a) =~= pa.subrange(prefix.len() as int, pa.len() - suffix.len()));
    assert(decimal(b) =~= pb.subrange(prefix.len() as int, pb.len() - suffix.len()));
    law_decimal_injective(a, b);
}

/// One answered request of a benchmark: the system that answered it, as its set-up
/// left it, the time it took, and the answer.
#[verifier::ext_equal]
pub struct Answer {
    /// The system that answered.
    pub system: BenchmarkView,
    /// The time it took, in microseconds.
    pub micros: u128,
    /// What came back.
    pub response: Seq<u8>,
}

/// The times of some answers.
pub open spec fn times(answers: Seq<Answer>) -> Seq<u128> {
    answers.map_values(|a: Answer| a.micros)
}

/// The cold start from its beginning through a run of answered requests.
pub open spec fn cold_start_after(system: BenchmarkView, answers: Seq<Answer>) -> (
    BenchmarkView,
    Seq<u128>,
    ColdStartActionView,
)
    decreases answers.len(),
{
    if answers.len() == 0 {
        let (begun, latencies, _) = cold_start_step(
            system,
            Seq::empty(),
            ColdStartEventView::Begin,
        );
        cold_start_step(begun, latencies, ColdStartEventView::CleanedUp)
    } else {
        let answer = answers.last();
        let (_, measured, _) = cold_start_after(system, answers.drop_last());
        let (up, waiting, _) = cold_start_step(
            answer.system,
            measured,
            ColdStartEventView::SetUp,
        );
        let (answered, latencies, _) = cold_start_step(
            up,
            waiting,
            ColdStartEventView::Exchanged { micros: answer.micros, response: answer.response },
        );
        cold_start_step(answered, latencies, ColdStartEventView::Rested)
    }
}

/// The cold start sets a fresh system up, on the socket of its iteration, until all
/// iterations are through; then it reports on exactly the times that were measured.
pub proof fn law_cold_start_run(system: BenchmarkView, answers: Seq<Answer>)
    requires
        answers.len() <= COLD_START_ITERATIONS,
    ensures
        ({
            let (left, latencies, action) = cold_start_after(system, answers);
            &&& latencies == times(answers)
            &&& answers.len() < COLD_START_ITERATIONS ==> {
                &&& action == ColdStartActionView::SetUp
                &&& left.linuxd_address == cold_start_socket(answers.len())
            }
            &&& answers.len() == COLD_START_ITERATIONS ==> action == ColdStartActionView::Report(
                cold_start_report(times(answers)),
            )
        }),
    decreases answers.len(),
{
    if answers.len() == 0 {
        assert(times(answers) =~= Seq::empty());
    } else {
        law_cold_start_run(system, answers.drop_last());
        assert(times(answers) =~= times(answers.drop_last()).push(answers.last().micros));
    }
}

/// Whatever an answered request of the cold start was answered with, the system that
/// answered it is taken down before the next is set up.
pub proof fn law_cold_start_takes_down(
    system: BenchmarkView,
    latencies: Seq<u128>,
    micros: u128,
    response: Seq<u8>,
)
    ensures
        ({
            let (left, measured, action) = cold_start_step(
                system,
                latencies,
                ColdStartEventView::Exchanged { micros, response },
            );
            &&& left == system
            &&& action matches ColdStartActionView::CleanUpAndRest { .. }
        }),
{
}

/// The cold start changes nothing of the system but the socket of linuxd.
pub proof fn law_cold_start_keeps_system(
    system: BenchmarkView,
    latencies: Seq<u128>,
    event: ColdStartEventView,
)
    ensures
        ({
            let left = cold_start_step(system, latencies, event).0;
            left == BenchmarkView { linuxd_address: left.linuxd_address, ..system }
        }),
{
}

/// An iteration of the cold start has linuxd bind the socket of that iteration, and
/// removes this very socket when it is over, however its set-up went.
pub proof fn law_cold_start_removes_its_socket(
    system: BenchmarkView,
    latencies: Seq<u128>,
    events: Seq<SetupEvent>,
    micros: u128,
    response: Seq<u8>,
)
    requires
        latencies.len() < COLD_START_ITERATIONS,
    ensures
        ({
            let (begun, _, action) = cold_start_step(
                system,
                latencies,
                ColdStartEventView::Rested,
            );
            let up = setup_after(begun, events).0;
            let left = cold_start_step(
                up,
                latencies,
                ColdStartEventView::Exchanged { micros, response },
            ).0;
            let socket = cold_start_socket(latencies.len());
            &&& action == ColdStartActionView::SetUp
            &&& begun.linuxd_command() == linuxd_command_line(
                system.linuxd_cores,
                socket,
                system.gateway_address,
            )
            &&& cleanup_actions(left).last() == CleanupActionView::RemoveSocket(socket)
        }),
{
    let begun = cold_start_step(system, latencies, ColdStartEventView::Rested).0;
    law_setup_keeps_configuration(begun, events);
}

/// The warm start from its beginning through a run of answered requests.
pub open spec fn warm_start_after(answers: Seq<Answer>) -> (Seq<u128>, WarmStartActionView)
    decreases answers.len(),
{
    if answers.len() == 0 {
        warm_start_step(Seq::empty(), WarmStartEventView::Begin)
    } else {
        let answer = answers.last();
        let (measured, _) = warm_start_after(answers.drop_last());
        let (latencies, _) = warm_start_step(
            measured,
            WarmStartEventView::Exchanged { micros: answer.micros, response: answer.response },
        );
        warm_start_step(latencies, WarmStartEventView::Recorded)
    }
}

/// The warm start sends the same request until all are answered; then it reports on
/// exactly the times that were measured.
pub proof fn law_warm_start_run(answers: Seq<Answer>)
    requires
        answers.len() <= WARM_START_ITERATIONS,
    ensures
        ({
            let (latencies, action) = warm_start_after(answers);
            &&& latencies == times(answers)
            &&& answers.len() < WARM_START_ITERATIONS ==> action == WarmStartActionView::Exchange {
                payload: framed(echo_data()),
                response_len: (LENGTH_SIZE + ECHO_SIZE) as usize,
            }
            &&& answers.len() == WARM_START_ITERATIONS ==> action == WarmStartActionView::Report(
                warm_start_report(times(answers)),
            )
        }),
    decreases answers.len(),
{
    if answers.len() == 0 {
        assert(times(answers) =~= Seq::empty());
    } else {
        law_warm_start_run(answers.drop_last());
        assert(times(answers) =~= times(answers.drop_last()).push(answers.last().micros));
    }
}

/// The latency benchmarks ask for exactly as many bytes as an echo of their request
/// has.
pub proof fn law_response_len()
    ensures
        framed(echo_data()).len() == LENGTH_SIZE + ECHO_SIZE,
{
    law_framed_len(echo_data());
}

/// Whatever message answers the request of the echo breakdown, exactly its frame is
/// received, and the message is broken down whole.
pub proof fn law_response_is_broken_down(response: Seq<u8>, rest: Seq<u8>)
    requires
        HEADER_SIZE <= response.len() <= u32::MAX,
    ensures
        ({
            let stream = framed(response) + rest;
            let length = stream.take(LENGTH_SIZE as int);
            let whole = stream.take(LENGTH_SIZE + response.len());
            &&& echo_step(EchoEventView::Sent) == EchoActionView::Receive(LENGTH_SIZE)
            &&& echo_step(EchoEventView::Received(length)) == EchoActionView::Receive(
                response.len() as usize,
            )
            &&& echo_step(EchoEventView::Received(whole)) == EchoActionView::Report(
                breakdown_text(response),
            )
        }),
{
    law_message_received_exactly(response, rest);
}

/// The socket of an iteration is named by the iteration's number between fixed words;
/// reading the number back gives the iteration.
pub proof fn law_cold_start_socket(iteration: nat)
    ensures
        ({
            let path = cold_start_socket(iteration);
            let number = path.subrange(29, path.len() - 7);
            &&& path.len() > 36
            &&& path.take(29) == "/tmp/nanvix_coldstart_ubench_"@
            &&& path.skip(path.len() - 7) == ".socket"@
            &&& number == decimal(iteration)
            &&& decimal_value(number) == iteration
        }),
{
    reveal_strlit("/tmp/nanvix_coldstart_ubench_");
    reveal_strlit(".socket");
    law_decimal_digits(iteration);
    law_decimal_reads_back(iteration);
    let path = cold_start_socket(iteration);
    assert(path.take(29) =~= "/tmp/nanvix_coldstart_ubench_"@);
    assert(path.skip(path.len() - 7) =~= ".socket"@);
    assert(path.subrange(29, path.len() - 7) =~= decimal(iteration));
}

/// The cold start begins by taking down whatever was running, with nothing measured yet.
pub proof fn law_cold_start_begins(system: BenchmarkView, latencies: Seq<u128>)
    ensures
        ({
            let (left, measured, action) = cold_start_step(
                system,
                latencies,
                ColdStartEventView::Begin,
            );
            &&& left == system
            &&& measured.len() == 0
            &&& action == ColdStartActionView::CleanUp
        }),
{
}

/// Whatever system was set up, and whatever was measured before, the cold start sends it
/// ten sevens in a frame and reads exactly as many bytes as it sends.
pub proof fn law_cold_start_reads_the_whole_echo(system: BenchmarkView, latencies: Seq<u128>)
    ensures
        ({
            let (left, measured, action) = cold_start_step(
                system,
                latencies,
                ColdStartEventView::SetUp,
            );
            &&& left == system
            &&& measured == latencies
            &&& action matches ColdStartActionView::Exchange { payload, response_len } && {
                &&& payload == framed(Seq::new(10, |i: int| 7u8))
                &&& response_len == payload.len()
                &&& response_len == 14
            }
        }),
{
    law_framed_len(echo_data());
    assert(echo_data() =~= Seq::new(10, |i: int| 7u8));
}

/// Of all answers to the request of the cold start exactly its intact echo, which has as
/// many bytes as are read, counts as an echo. The time of any answer is put behind those
/// measured before, and the system is taken down, with ten milliseconds of rest.
pub proof fn law_cold_start_recognizes_the_echo(
    system: BenchmarkView,
    latencies: Seq<u128>,
    payload: Seq<u8>,
    response_len: usize,
    micros: u128,
    response: Seq<u8>,
)
    requires
        cold_start_step(system, latencies, ColdStartEventView::SetUp).2
            == (ColdStartActionView::Exchange { payload, response_len }),
    ensures
        ({
            let (left, measured, action) = cold_start_step(
                system,
                latencies,
                ColdStartEventView::Exchanged { micros, response },
            );
            &&& left == system
            &&& measured == latencies.push(micros)
            &&& action matches ColdStartActionView::CleanUpAndRest { echoed, millis } && {
                &&& echoed <==> response == payload
                &&& echoed ==> response.len() == response_len
                &&& millis == 10
            }
        }),
{
    law_framed_len(echo_data());
}

/// After a clean-up the cold start goes on to the next iteration, on the socket of its
/// number, until a thousand times were measured; then it reports on all of them.
pub proof fn law_cold_start_goes_on(
    system: BenchmarkView,
    latencies: Seq<u128>,
    event: ColdStartEventView,
)
    requires
        event is CleanedUp || event is Rested,
    ensures
        ({
            let (left, measured, action) = cold_start_step(system, latencies, event);
            &&& measured == latencies
            &&& latencies.len() < 1000 ==> {
                &&& action == ColdStartActionView::SetUp
                &&& left.linuxd_address == "/tmp/nanvix_coldstart_ubench_"@ + decimal(
                    latencies.len(),
                ) + ".socket"@
            }
            &&& latencies.len() >= 1000 ==> {
                &&& left == system
                &&& action matches ColdStartActionView::Report(lines) && {
                    &&& lines.len() == 4
                    &&& lines[0] == "First req: "@ + decimal(latencies[0] as nat) + " us"@
                    &&& lines[1] == "p50: "@ + decimal(summary_of(latencies).p50 as nat) + " us"@
                    &&& lines[2] == "p95: "@ + decimal(summary_of(latencies).p95 as nat) + " us"@
                    &&& lines[3] == "p99: "@ + decimal(summary_of(latencies).p99 as nat) + " us"@
                }
            }
            &&& left.linuxd_cores == system.linuxd_cores
            &&& left.nanovm_cores == system.nanovm_cores
            &&& left.flavour == system.flavour
            &&& left.gateway_address == system.gateway_address
            &&& left.linuxd == system.linuxd
            &&& left.nanovm == system.nanovm
            &&& left.gateway == system.gateway
        }),
{
}

/// A failed exchange stops the cold start and changes nothing.
pub proof fn law_cold_start_stops(system: BenchmarkView, latencies: Seq<u128>)
    ensures
        ({
            let (left, measured, action) = cold_start_step(
                system,
                latencies,
                ColdStartEventView::ExchangeFailed,
            );
            &&& left == system
            &&& measured == latencies
            &&& action == ColdStartActionView::Stop
        }),
{
}

/// The warm start begins with nothing measured. From then on it asks for an exchange, with
/// the frame of ten sevens and an answer of as many bytes, until ten thousand times were
/// measured; then it reports on all of them.
pub proof fn law_warm_start_goes_on(latencies: Seq<u128>, event: WarmStartEventView)
    requires
        event is Begin || event is Recorded,
    ensures
        ({
            let (measured, action) = warm_start_step(latencies, event);
            &&& event is Begin ==> measured.len() == 0
            &&& event is Recorded ==> measured == latencies
            &&& measured.len() < 10000 ==> {
                &&& action matches WarmStartActionView::Exchange { payload, response_len } && {
                    &&& payload == framed(Seq::new(10, |i: int| 7u8))
                    &&& response_len == payload.len()
                    &&& response_len == 14
                }
            }
            &&& measured.len() >= 10000 ==> {
                &&& action matches WarmStartActionView::Report(lines) && {
                    &&& lines.len() == 4
                    &&& lines[0] == "First req (includes nano VM boot time): "@ + decimal(
                        measured[0] as nat,
                    ) + " us"@
                    &&& lines[1] == "p50: "@ + decimal(summary_of(measured).p50 as nat) + " us"@
                    &&& lines[2] == "p95: "@ + decimal(summary_of(measured).p95 as nat) + " us"@
                    &&& lines[3] == "p99: "@ + decimal(summary_of(measured).p99 as nat) + " us"@
                }
            }
        }),
{
    law_framed_len(echo_data());
    assert(echo_data() =~= Seq::new(10, |i: int| 7u8));
}

/// Of all answers to a request of the warm start exactly its intact echo, which has as many
/// bytes as are read, counts as an echo. The time of any answer is put behind those
/// measured before.
pub proof fn law_warm_start_recognizes_the_echo(
    earlier: Seq<u128>,
    latencies: Seq<u128>,
    payload: Seq<u8>,
    response_len: usize,
    micros: u128,
    response: Seq<u8>,
)
    requires
        warm_start_step(earlier, WarmStartEventView::Recorded).1
            == (WarmStartActionView::Exchange { payload, response_len }),
    ensures
        ({
            let (measured, action) = warm_start_step(
                latencies,
                WarmStartEventView::Exchanged { micros, response },
            );
            &&& measured == latencies.push(micros)
            &&& action matches WarmStartActionView::Record { echoed } && {
                &&& echoed <==> response == payload
                &&& echoed ==> response.len() == response_len
            }
        }),
{
    law_framed_len(echo_data());
}

/// A failed exchange stops the warm start and changes nothing.
pub proof fn law_warm_start_stops(latencies: Seq<u128>)
    ensures
        warm_start_step(latencies, WarmStartEventView::ExchangeFailed) == (
            latencies,
            WarmStartActionView::Stop,
        ),
{
}

/// The echo breakdown shows and sends a message of 33 zeros.
pub proof fn law_echo_breakdown_request()
    ensures
        echo_step(EchoEventView::Begin) matches EchoActionView::Send { line, frame } && {
            &&& line == raw_payload(Seq::new(33, |i: int| 0u8))
            &&& frame == framed(Seq::new(33, |i: int| 0u8))
        },
        echo_step(EchoEventView::ExchangeFailed) == EchoActionView::Stop(EchoFailure::Exchange),
{
    assert(breakdown_request() =~= Seq::new(33, |i: int| 0u8));
}

/// The echo breakdown receives four bytes first, and then as many as they announce. As long
/// as bytes are missing it asks for exactly these, and for nothing beyond. What is reported
/// then is the breakdown of the announced bytes; a message without any is refused.
pub proof fn law_echo_breakdown_receives(bytes: Seq<u8>)
    ensures
        echo_step(EchoEventView::Sent) == EchoActionView::Receive(4),
        bytes.len() < 4 ==> echo_step(EchoEventView::Received(bytes)) == EchoActionView::Receive(
            (4 - bytes.len()) as usize,
        ),
        bytes.len() >= 4 ==> {
            let announced = bytes[0] + 256 * bytes[1] + 65536 * bytes[2] + 16777216 * bytes[3];
            let action = echo_step(EchoEventView::Received(bytes));
            &&& bytes.len() < 4 + announced ==> action == EchoActionView::Receive(
                (4 + announced - bytes.len()) as usize,
            )
            &&& bytes.len() >= 4 + announced && announced > 0 ==> action == EchoActionView::Report(
                breakdown_text(bytes.subrange(4, 4 + announced)),
            )
            &&& bytes.len() >= 4 && announced == 0 ==> action == EchoActionView::Stop(
                EchoFailure::EmptyMessage,
            )
        },
{
    if bytes.len() < 4 {
        law_no_message_without_length(bytes);
    } else {
        law_announced_message(bytes);
        law_missing_len(bytes);
        let announced = bytes[0] + 256 * bytes[1] + 65536 * bytes[2] + 16777216 * bytes[3];
        if bytes.len() >= 4 + announced {
            assert(message_in(bytes) =~= bytes.subrange(4, 4 + announced));
        }
    }
}

/// The view of a run shows the latencies it has measured.
pub proof fn law_latency_run_view(run: LatencyRun)
    ensures
        run@ == run.latencies@,
{
}

/// The view of an event of the cold start shows what was reported.
pub proof fn law_cold_start_event_view(event: ColdStartEvent)
    ensures
        match event {
            ColdStartEvent::Begin => event@ is Begin,
            ColdStartEvent::CleanedUp => event@ is CleanedUp,
            ColdStartEvent::SetUp => event@ is SetUp,
            ColdStartEvent::Exchanged { micros, response } => event@
                == (ColdStartEventView::Exchanged { micros, response: response@ }),
            ColdStartEvent::ExchangeFailed => event@ is ExchangeFailed,
            ColdStartEvent::Rested => event@ is Rested,
        },
{
}

/// The view of an action of the cold start shows what it asks for.
pub proof fn law_cold_start_action_view(action: ColdStartAction)
    ensures
        match action {
            ColdStartAction::CleanUp => action@ is CleanUp,
            ColdStartAction::SetUp => action@ is SetUp,
            ColdStartAction::Exchange { payload, response_len } => action@
                == (ColdStartActionView::Exchange { payload: payload@, response_len }),
            ColdStartAction::CleanUpAndRest { echoed, millis } => action@
                == (ColdStartActionView::CleanUpAndRest { echoed, millis }),
            ColdStartAction::Report(lines) => action@ == ColdStartActionView::Report(texts(lines@)),
            ColdStartAction::Stop => action@ is Stop,
        },
{
}

/// The view of an event of the warm start shows what was reported.
pub proof fn law_warm_start_event_view(event: WarmStartEvent)
    ensures
        match event {
            WarmStartEvent::Begin => event@ is Begin,
            WarmStartEvent::Exchanged { micros, response } => event@
                == (WarmStartEventView::Exchanged { micros, response: response@ }),
            WarmStartEvent::ExchangeFailed => event@ is ExchangeFailed,
            WarmStartEvent::Recorded => event@ is Recorded,
        },
{
}

/// The view of an action of the warm start shows what it asks for.
pub proof fn law_warm_start_action_view(action: WarmStartAction)
    ensures
        match action {
            WarmStartAction::Exchange { payload, response_len } => action@
                == (WarmStartActionView::Exchange { payload: payload@, response_len }),
            WarmStartAction::Record { echoed } => action@ == (WarmStartActionView::Record { echoed }),
            WarmStartAction::Report(lines) => action@ == WarmStartActionView::Report(texts(lines@)),
            WarmStartAction::Stop => action@ is Stop,
        },
{
}

/// The view of an event of the echo breakdown shows what was reported.
pub proof fn law_echo_event_view(event: EchoEvent)
    ensures
        match event {
            EchoEvent::Begin => event@ is Begin,
            EchoEvent::Sent => event@ is Sent,
            EchoEvent::Received(bytes) => event@ == EchoEventView::Received(bytes@),
            EchoEvent::ExchangeFailed => event@ is ExchangeFailed,
        },
{
}

/// The view of an action of the echo breakdown shows what it asks for.
pub proof fn law_echo_action_view(action: EchoAction)
    ensures
        match action {
            EchoAction::Send { line, frame } => action@ == (EchoActionView::Send {
                line: line@,
                frame: frame@,
            }),
            EchoAction::Receive(len) => action@ == EchoActionView::Receive(len),
            EchoAction::Report(lines) => action@ == EchoActionView::Report(texts(lines@)),
            EchoAction::Stop(failure) => action@ == EchoActionView::Stop(failure),
        },
{
}

} // verus!
