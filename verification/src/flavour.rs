//! The three benchmarks and the names they go by on the command line.

use crate::text::{ascii_lowercase, to_lowercase, unicode_lowercase};
use std::str::FromStr;
use vstd::prelude::*;
use vstd::string::*;
use vstd::utf8::is_ascii_chars;

verus! {

/// What a run of the program measures.
#[derive(Clone, Copy, Debug, PartialEq, Eq, Structural)]
pub enum BenchmarkFlavour {
    /// Latency of the first request to a freshly started system.
    ColdStart,
    /// Latency of repeated requests to one running system.
    WarmStart,
    /// Time that one request spends in each part of the system.
    EchoBreakdown,
}

/// The name of a benchmark.
pub open spec fn flavour_name(flavour: BenchmarkFlavour) -> Seq<char> {
    match flavour {
        BenchmarkFlavour::ColdStart => "cold-start"@,
        BenchmarkFlavour::WarmStart => "warm-start"@,
        BenchmarkFlavour::EchoBreakdown => "echo-breakdown"@,
    }
}

/// The benchmark that goes by a name, if any does.
pub open spec fn flavour_named(name: Seq<char>) -> Option<BenchmarkFlavour> {
    if name == "cold-start"@ {
        Some(BenchmarkFlavour::ColdStart)
    } else if name == "warm-start"@ {
        Some(BenchmarkFlavour::WarmStart)
    } else if name == "echo-breakdown"@ {
        Some(BenchmarkFlavour::EchoBreakdown)
    } else {
        None
    }
}

/// What parsing yields for the text `given`, whose lower-case form is `lowered`.
pub open spec fn parse_outcome(
    lowered: Seq<char>,
    given: Seq<char>,
    outcome: Result<BenchmarkFlavour, String>,
) -> bool {
    match outcome {
        Ok(flavour) => flavour_named(lowered) == Some(flavour),
        Err(message) => {
            &&& flavour_named(lowered) is None
            &&& message@ == "Invalid benchmark type: "@ + given
        },
    }
}

impl BenchmarkFlavour {
    /// The name of the benchmark.
    pub fn to_string(&self) -> (name: String)
        ensures
            name@ == flavour_name(*self),
    {
        match self {
            BenchmarkFlavour::ColdStart => "cold-start".to_owned(),
            BenchmarkFlavour::WarmStart => "warm-start".to_owned(),
            BenchmarkFlavour::EchoBreakdown => "echo-breakdown".to_owned(),
        }
    }

    /// Finds the benchmark whose name is exactly `lowered`, the lower-case form
    /// of `given`.
    pub fn from_lowered(lowered: &str, given: &str) -> (outcome: Result<BenchmarkFlavour, String>)
        ensures
            parse_outcome(lowered@, given@, outcome),
    {
        let name = lowered.to_owned();
        if name == "cold-start".to_owned() {
            Ok(BenchmarkFlavour::ColdStart)
        } else if name == "warm-start".to_owned() {
            Ok(BenchmarkFlavour::WarmStart)
        } else if name == "echo-breakdown".to_owned() {
            Ok(BenchmarkFlavour::EchoBreakdown)
        } else {
            let mut message = "Invalid benchmark type: ".to_owned();
            message.append(given);
            Err(message)
        }
    }
}

impl FromStr for BenchmarkFlavour {
    type Err = String;

    /// Finds the benchmark for a name, in whatever case the name is written.
    /// A text that names none is quoted in the error as it was given.
    fn from_str(s: &str) -> (outcome: Result<BenchmarkFlavour, String>)
        ensures
            parse_outcome(unicode_lowercase(s@), s@, outcome),
            is_ascii_chars(s@) ==> parse_outcome(ascii_lowercase(s@), s@, outcome),
    {
        let lowered = to_lowercase(s);
        BenchmarkFlavour::from_lowered(lowered.as_str(), s)
    }
}

/// What is printed for an argument that selects no benchmark.
pub const USAGE: &'static str = "usage: nanvix-bench [cold-start,warm-start,echo-breakdown]";

/// The benchmark that a command-line argument, whose lower-case form is
/// `lowered`, selects. `-profile` selects the profile mode, the echo breakdown.
pub open spec fn selected_flavour(argument: Seq<char>, lowered: Seq<char>) -> Option<
    BenchmarkFlavour,
> {
    if argument == "-profile"@ {
        Some(BenchmarkFlavour::EchoBreakdown)
    } else {
        flavour_named(lowered)
    }
}

/// Selects the benchmark from the first command-line argument. Without an
/// argument the program runs in its regular mode, which repeats requests to one
/// running system: the warm start. `-profile` selects the profile mode; any
/// other argument has to name a benchmark, else nothing is selected.
pub fn get_benchmark_flavour(argument: Option<String>) -> (selected: Option<BenchmarkFlavour>)
    ensures
        argument is None ==> selected == Some(BenchmarkFlavour::WarmStart),
        argument matches Some(text) ==> {
            &&& selected == selected_flavour(text@, unicode_lowercase(text@))
            &&& is_ascii_chars(text@) ==> selected == selected_flavour(
                text@,
                ascii_lowercase(text@),
            )
        },
{
    match argument {
        None => Some(BenchmarkFlavour::WarmStart),
        Some(text) => {
            if text == "-profile".to_owned() {
                Some(BenchmarkFlavour::EchoBreakdown)
            } else {
                match BenchmarkFlavour::from_str(text.as_str()) {
                    Ok(flavour) => Some(flavour),
                    Err(_) => None,
                }
            }
        },
    }
}

/// The name of every benchmark is ASCII, and in lower case.
pub proof fn law_names_are_ascii(flavour: BenchmarkFlavour)
    ensures
        is_ascii_chars(flavour_name(flavour)),
        ascii_lowercase(flavour_name(flavour)) == flavour_name(flavour),
{
    reveal_strlit("cold-start");
    reveal_strlit("warm-start");
    reveal_strlit("echo-breakdown");
    assert(ascii_lowercase(flavour_name(flavour)) =~= flavour_name(flavour));
}

/// The names round-trip: parsing the name of a benchmark, which is ASCII, gives that
/// benchmark back.
pub proof fn law_name_round_trip(
    flavour: BenchmarkFlavour,
    parsed: Result<BenchmarkFlavour, String>,
)
    requires
        is_ascii_chars(flavour_name(flavour)) ==> parse_outcome(
            ascii_lowercase(flavour_name(flavour)),
            flavour_name(flavour),
            parsed,
        ),
    ensures
        parsed == Ok::<BenchmarkFlavour, String>(flavour),
{
    lemma_names_distinct();
    law_names_are_ascii(flavour);
}

/// No two benchmarks share a name.
proof fn lemma_names_distinct()
    ensures
        "cold-start"@ != "warm-start"@,
        "cold-start"@ != "echo-breakdown"@,
        "warm-start"@ != "echo-breakdown"@,
{
    reveal_strlit("cold-start");
    reveal_strlit("warm-start");
    reveal_strlit("echo-breakdown");
    assert("cold-start"@[0] != "warm-start"@[0]);
}

/// Only a name is accepted: a text that parses to a benchmark has that benchmark's
/// name as its lower-case form.
pub proof fn law_accepted_text_is_name(
    text: Seq<char>,
    parsed: Result<BenchmarkFlavour, String>,
)
    requires
        parse_outcome(unicode_lowercase(text), text, parsed),
    ensures
        parsed matches Ok(flavour) ==> unicode_lowercase(text) == flavour_name(flavour),
{
}

/// An ASCII text that parses to a benchmark is that benchmark's name, up to the case
/// of its letters.
pub proof fn law_accepted_ascii_text_is_name(
    text: Seq<char>,
    parsed: Result<BenchmarkFlavour, String>,
)
    requires
        parse_outcome(ascii_lowercase(text), text, parsed),
    ensures
        parsed matches Ok(flavour) ==> ascii_lowercase(text) == flavour_name(flavour),
{
}

/// Case does not matter: two texts with the same lower-case form are parsed to the
/// same benchmark, or are both refused.
pub proof fn law_case_insensitive(
    a: Seq<char>,
    b: Seq<char>,
    parsed_a: Result<BenchmarkFlavour, String>,
    parsed_b: Result<BenchmarkFlavour, String>,
)
    requires
        unicode_lowercase(a) == unicode_lowercase(b),
        parse_outcome(unicode_lowercase(a), a, parsed_a),
        parse_outcome(unicode_lowercase(b), b, parsed_b),
    ensures
        parsed_a is Ok <==> parsed_b is Ok,
        parsed_a is Ok ==> parsed_a == parsed_b,
{
}

/// Two ASCII texts that differ in the case of their letters alone are parsed to the
/// same benchmark, or are both refused.
pub proof fn law_ascii_case_insensitive(
    a: Seq<char>,
    b: Seq<char>,
    parsed_a: Result<BenchmarkFlavour, String>,
    parsed_b: Result<BenchmarkFlavour, String>,
)
    requires
        ascii_lowercase(a) == ascii_lowercase(b),
        parse_outcome(ascii_lowercase(a), a, parsed_a),
        parse_outcome(ascii_lowercase(b), b, parsed_b),
    ensures
        parsed_a is Ok <==> parsed_b is Ok,
        parsed_a is Ok ==> parsed_a == parsed_b,
{
}

/// The three names, and no other text, are parsed to a benchmark; the refusal of any
/// other text quotes the text as it was given, behind a fixed prefix.
pub proof fn law_parse_outcome(
    lowered: Seq<char>,
    given: Seq<char>,
    parsed: Result<BenchmarkFlavour, String>,
)
    requires
        parse_outcome(lowered, given, parsed),
    ensures
        lowered == "cold-start"@ <==> parsed == Ok::<BenchmarkFlavour, String>(
            BenchmarkFlavour::ColdStart,
        ),
        lowered == "warm-start"@ <==> parsed == Ok::<BenchmarkFlavour, String>(
            BenchmarkFlavour::WarmStart,
        ),
        lowered == "echo-breakdown"@ <==> parsed == Ok::<BenchmarkFlavour, String>(
            BenchmarkFlavour::EchoBreakdown,
        ),
        parsed matches Err(message) ==> {
            &&& message@.take(24) == "Invalid benchmark type: "@
            &&& message@.skip(24) == given
        },
{
    lemma_names_distinct();
    reveal_strlit("Invalid benchmark type: ");
    if let Err(message) = parsed {
        assert(message@.take(24) =~= "Invalid benchmark type: "@);
        assert(message@.skip(24) =~= given);
    }
}

/// A benchmark is printed by the name under which it is found.
pub proof fn law_name_is_found(flavour: BenchmarkFlavour)
    ensures
        flavour_named(flavour_name(flavour)) == Some(flavour),
        flavour_name(flavour) == "cold-start"@ <==> flavour == BenchmarkFlavour::ColdStart,
        flavour_name(flavour) == "warm-start"@ <==> flavour == BenchmarkFlavour::WarmStart,
        flavour_name(flavour) == "echo-breakdown"@ <==> flavour == BenchmarkFlavour::EchoBreakdown,
{
    lemma_names_distinct();
}

/// An argument selects exactly what parsing it yields, except for `-profile`, which
/// selects the echo breakdown.
pub proof fn law_argument_selects_what_it_parses_to(
    argument: Seq<char>,
    lowered: Seq<char>,
    parsed: Result<BenchmarkFlavour, String>,
)
    requires
        parse_outcome(lowered, argument, parsed),
    ensures
        argument != "-profile"@ ==> selected_flavour(argument, lowered) == match parsed {
            Ok(flavour) => Some(flavour),
            Err(_) => None,
        },
        argument == "-profile"@ ==> selected_flavour(argument, lowered) == Some(
            BenchmarkFlavour::EchoBreakdown,
        ),
{
}

/// The name of every benchmark, given as the argument, selects that benchmark, however
/// its letters are cased.
pub proof fn law_name_selects_its_benchmark(argument: Seq<char>, flavour: BenchmarkFlavour)
    requires
        ascii_lowercase(argument) == flavour_name(flavour),
    ensures
        selected_flavour(argument, ascii_lowercase(argument)) == Some(flavour),
        selected_flavour(flavour_name(flavour), ascii_lowercase(flavour_name(flavour))) == Some(
            flavour,
        ),
{
    law_names_are_ascii(flavour);
    lemma_names_distinct();
    reveal_strlit("-profile");
    reveal_strlit("cold-start");
    reveal_strlit("warm-start");
    reveal_strlit("echo-breakdown");
    assert(ascii_lowercase(argument).len() == argument.len());
    assert("-profile"@.len() != flavour_name(flavour).len());
}

} // verus!
