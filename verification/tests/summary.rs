use nanvix_bench::latency::{label_micros, summarize, LatencySummary};

#[test]
fn summary_of_a_hundred_latencies() {
    let latencies: Vec<u128> = (0..100).map(|i| (i * 37 + 5) % 100).collect();
    let summary = summarize(&latencies);
    assert_eq!(
        summary,
        LatencySummary { first: 5, p50: 50, p95: 95, p99: 99 }
    );
}

#[test]
fn summary_of_one_latency() {
    assert_eq!(
        summarize(&vec![8]),
        LatencySummary { first: 8, p50: 8, p95: 8, p99: 8 }
    );
}

#[test]
fn summary_leaves_the_latencies_in_their_order() {
    let latencies: Vec<u128> = vec![30, 10, 20];
    let summary = summarize(&latencies);
    assert_eq!(latencies, vec![30, 10, 20]);
    assert_eq!(summary.first, 30);
    assert_eq!(summary.p50, 20);
    assert_eq!(summary.p99, 30);
}

#[test]
fn percentiles_ignore_the_order_of_measuring() {
    let up: Vec<u128> = (0..1000).collect();
    let down: Vec<u128> = (0..1000).rev().collect();
    let a = summarize(&up);
    let b = summarize(&down);
    assert_eq!((a.p50, a.p95, a.p99), (b.p50, b.p95, b.p99));
    assert_eq!((a.first, b.first), (0, 999));
}

#[test]
fn percentiles_ascend_and_were_measured() {
    let latencies: Vec<u128> = (0..257).map(|i| i * i % 101).collect();
    let summary = summarize(&latencies);
    assert!(summary.p50 <= summary.p95 && summary.p95 <= summary.p99);
    for value in [summary.first, summary.p50, summary.p95, summary.p99] {
        assert!(latencies.contains(&value));
    }
}

#[test]
fn percentile_splits_the_latencies() {
    let latencies: Vec<u128> = (0..250).map(|i| i % 7).collect();
    let p95 = summarize(&latencies).p95;
    let place = 250 * 95 / 100;
    assert!(latencies.iter().filter(|l| **l < p95).count() <= place);
    assert!(latencies.iter().filter(|l| **l <= p95).count() > place);
}

#[test]
fn places_agree_with_fractions_of_the_count() {
    for count in [1000usize, 10000] {
        let latencies: Vec<u128> = (0..count as u128).collect();
        let summary = summarize(&latencies);
        assert_eq!(summary.p50 as usize, (count as f32 * 0.5) as usize);
        assert_eq!(summary.p95 as usize, (count as f32 * 0.95) as usize);
        assert_eq!(summary.p99 as usize, (count as f32 * 0.99) as usize);
    }
}

#[test]
fn summary_is_printed_in_four_lines() {
    let summary = LatencySummary { first: 1234, p50: 5, p95: 60, p99: 0 };
    assert_eq!(
        summary.lines("First req: "),
        vec!["First req: 1234 us", "p50: 5 us", "p95: 60 us", "p99: 0 us"]
    );
    assert_eq!(label_micros("", 7), "7 us");
}
