//! The data-path micro-benchmark of Nanvix: the time it takes to echo a message from
//! the gateway into a guest in a nano VM and back.
//!
//! - [`flavour`]: the three benchmarks and how one is selected.
//! - [`launch`]: the command lines of linuxd and of the nano VM.
//! - [`benchmark`]: the system under test, its set-up and its clean-up.
//! - [`wire`]: the messages that are exchanged with the gateway.
//! - [`latency`]: the summary of measured latencies.
//! - [`breakdown`]: the timestamps that a request collects on its way.
//! - [`runs`]: the three benchmarks, step by step.
//! - [`text`]: numbers and padding as they are printed.

pub mod benchmark;
pub mod breakdown;
pub mod flavour;
pub mod latency;
pub mod launch;
pub mod runs;
pub mod text;
pub mod wire;
