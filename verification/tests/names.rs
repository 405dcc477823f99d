use nanvix_bench::flavour::{get_benchmark_flavour, BenchmarkFlavour, USAGE};
use std::str::FromStr;

const ALL: [BenchmarkFlavour; 3] = [
    BenchmarkFlavour::ColdStart,
    BenchmarkFlavour::WarmStart,
    BenchmarkFlavour::EchoBreakdown,
];

#[test]
fn names_are_as_documented() {
    assert_eq!(BenchmarkFlavour::ColdStart.to_string(), "cold-start");
    assert_eq!(BenchmarkFlavour::WarmStart.to_string(), "warm-start");
    assert_eq!(BenchmarkFlavour::EchoBreakdown.to_string(), "echo-breakdown");
    for flavour in ALL {
        assert!(USAGE.contains(&flavour.to_string()));
    }
}

#[test]
fn names_round_trip() {
    for flavour in ALL {
        assert_eq!(BenchmarkFlavour::from_str(&flavour.to_string()), Ok(flavour));
        assert_eq!(flavour.to_string().parse::<BenchmarkFlavour>(), Ok(flavour));
    }
}

#[test]
fn case_does_not_matter() {
    assert_eq!(BenchmarkFlavour::from_str("COLD-START"), Ok(BenchmarkFlavour::ColdStart));
    assert_eq!(BenchmarkFlavour::from_str("Warm-Start"), Ok(BenchmarkFlavour::WarmStart));
    assert_eq!(
        BenchmarkFlavour::from_str("eChO-bReAkDoWn"),
        Ok(BenchmarkFlavour::EchoBreakdown)
    );
}

#[test]
fn case_folding_goes_beyond_ascii() {
    // The Kelvin sign has the letter k as its lower case.
    assert_eq!(
        BenchmarkFlavour::from_str("echo-brea\u{212A}down"),
        Ok(BenchmarkFlavour::EchoBreakdown)
    );
}

#[test]
fn unknown_name_is_quoted_as_given() {
    assert_eq!(
        BenchmarkFlavour::from_str("Hot-Start"),
        Err("Invalid benchmark type: Hot-Start".to_string())
    );
    assert_eq!(
        BenchmarkFlavour::from_str(""),
        Err("Invalid benchmark type: ".to_string())
    );
    assert_eq!(
        BenchmarkFlavour::from_str(" cold-start"),
        Err("Invalid benchmark type:  cold-start".to_string())
    );
}

#[test]
fn lowered_name_is_matched_exactly() {
    assert_eq!(
        BenchmarkFlavour::from_lowered("cold-start", "x"),
        Ok(BenchmarkFlavour::ColdStart)
    );
    assert_eq!(
        BenchmarkFlavour::from_lowered("Cold-start", "x"),
        Err("Invalid benchmark type: x".to_string())
    );
}

#[test]
fn argument_selects_the_benchmark() {
    let select = |text: &str| get_benchmark_flavour(Some(text.to_string()));
    assert_eq!(select("cold-start"), Some(BenchmarkFlavour::ColdStart));
    assert_eq!(select("WARM-start"), Some(BenchmarkFlavour::WarmStart));
    assert_eq!(select("echo-breakdown"), Some(BenchmarkFlavour::EchoBreakdown));
    assert_eq!(select("profile"), None);
    assert_eq!(select(""), None);
}

#[test]
fn regular_and_profile_mode() {
    assert_eq!(get_benchmark_flavour(None), Some(BenchmarkFlavour::WarmStart));
    assert_eq!(
        get_benchmark_flavour(Some("-profile".to_string())),
        Some(BenchmarkFlavour::EchoBreakdown)
    );
    assert_eq!(get_benchmark_flavour(Some("-PROFILE".to_string())), None);
}
