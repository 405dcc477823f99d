//! What is reported about the latencies of repeated requests: the first one and
//! the 50th, 95th and 99th percentile.

use crate::text::{
    decimal, decimal_value, law_decimal_digits, law_decimal_reads_back, texts, to_decimal,
};
use vstd::multiset::Multiset;
use vstd::prelude::*;
use vstd::relations::sorted_by;
use vstd::seq_lib::*;
use vstd::string::*;

verus! {

/// The order in which latencies are ranked.
pub open spec fn at_most() -> spec_fn(u128, u128) -> bool {
    |a: u128, b: u128| a <= b
}

/// Latencies from the smallest to the largest.
pub open spec fn in_order(latencies: Seq<u128>) -> Seq<u128> {
    latencies.sort_by(at_most())
}

/// The place of a percentile among `count` latencies in ascending order.
pub open spec fn percentile_index(count: nat, percent: nat) -> nat {
    count * percent / 100
}

/// A percentile of some latencies.
pub open spec fn percentile(latencies: Seq<u128>, percent: nat) -> u128 {
    in_order(latencies)[percentile_index(latencies.len(), percent) as int]
}

/// What is reported about a run, in microseconds.
#[derive(Clone, Copy, Debug, PartialEq, Eq, Structural)]
pub struct LatencySummary {
    /// Latency of the first request.
    pub first: u128,
    /// Median latency.
    pub p50: u128,
    /// 95th percentile.
    pub p95: u128,
    /// 99th percentile.
    pub p99: u128,
}

/// The summary of the latencies of a run, in the order they were measured.
pub open spec fn summary_of(latencies: Seq<u128>) -> LatencySummary {
    LatencySummary {
        first: latencies[0],
        p50: percentile(latencies, 50),
        p95: percentile(latencies, 95),
        p99: percentile(latencies, 99),
    }
}

/// A label, a number of microseconds and its unit.
pub open spec fn micros_line(label: Seq<char>, micros: u128) -> Seq<char> {
    label + decimal(micros as nat) + " us"@
}

/// The lines in which a summary is printed.
pub open spec fn summary_lines(first_label: Seq<char>, summary: LatencySummary) -> Seq<Seq<char>> {
    seq![
        micros_line(first_label, summary.first),
        micros_line("p50: "@, summary.p50),
        micros_line("p95: "@, summary.p95),
        micros_line("p99: "@, summary.p99),
    ]
}

/// Calls the standard library's `sort` on the elements of a vector: they end up
/// in ascending order, and are the same elements as before.
#[verifier::external_body]
fn sort(latencies: &mut Vec<u128>)
    ensures
        sorted_by(final(latencies)@, at_most()),
        final(latencies)@.to_multiset() == old(latencies)@.to_multiset(),
{
    latencies.sort();
}

/// The latencies in ascending order are the only run of the same latencies that
/// ascends.
pub proof fn law_in_order(latencies: Seq<u128>, ascending: Seq<u128>)
    requires
        sorted_by(ascending, at_most()),
        ascending.to_multiset() == latencies.to_multiset(),
    ensures
        in_order(latencies) == ascending,
{
    latencies.lemma_sort_by_ensures(at_most());
    lemma_sorted_unique(in_order(latencies), ascending, at_most());
}

/// Ordering keeps the number of latencies.
proof fn lemma_in_order_len(latencies: Seq<u128>)
    ensures
        in_order(latencies).len() == latencies.len(),
        sorted_by(in_order(latencies), at_most()),
        in_order(latencies).to_multiset() == latencies.to_multiset(),
{
    broadcast use group_to_multiset_ensures;

    latencies.lemma_sort_by_ensures(at_most());
    assert(in_order(latencies).to_multiset().len() == in_order(latencies).len());
    assert(latencies.to_multiset().len() == latencies.len());
}

/// The element of a sorted vector at the place of a percentile.
fn element_at_percentile(ascending: &Vec<u128>, percent: u128) -> (latency: u128)
    requires
        ascending@.len() > 0,
        percent < 100,
    ensures
        latency == ascending@[percentile_index(ascending@.len(), percent as nat) as int],
{
    let count: u128 = ascending.len() as u128;
    assert(count * percent <= u64::MAX * 100 && count * percent / 100 < count) by (nonlinear_arith)
        requires
            0 < count <= u64::MAX,
            percent < 100,
    ;
    let index: usize = (count * percent / 100) as usize;
    ascending[index]
}

/// Summarizes the latencies of a run, given in the order they were measured.
pub fn summarize(latencies: &Vec<u128>) -> (summary: LatencySummary)
    requires
        latencies@.len() > 0,
    ensures
        summary == summary_of(latencies@),
{
    let first: u128 = latencies[0];
    let mut ascending: Vec<u128> = latencies.clone();
    assert(ascending@ =~= latencies@);
    sort(&mut ascending);
    proof {
        law_in_order(latencies@, ascending@);
        lemma_in_order_len(latencies@);
    }
    LatencySummary {
        first,
        p50: element_at_percentile(&ascending, 50),
        p95: element_at_percentile(&ascending, 95),
        p99: element_at_percentile(&ascending, 99),
    }
}

/// Writes a label, a number of microseconds and its unit.
pub fn label_micros(label: &str, micros: u128) -> (line: String)
    ensures
        line@ == micros_line(label@, micros),
{
    let mut line = label.to_owned();
    line.append(to_decimal(micros).as_str());
    line.append(" us");
    line
}

impl LatencySummary {
    /// The lines in which the summary is printed.
    pub fn lines(&self, first_label: &str) -> (lines: Vec<String>)
        ensures
            texts(lines@) == summary_lines(first_label@, *self),
    {
        let mut lines: Vec<String> = Vec::new();
        lines.push(label_micros(first_label, self.first));
        lines.push(label_micros("p50: ", self.p50));
        lines.push(label_micros("p95: ", self.p95));
        lines.push(label_micros("p99: ", self.p99));
        assert(texts(lines@) =~= summary_lines(first_label@, *self));
        lines
    }
}

/// The percentiles of a run ascend, and each of them, like the first latency, was
/// measured.
pub proof fn law_summary_is_measured(latencies: Seq<u128>)
    requires
        latencies.len() > 0,
    ensures
        summary_of(latencies).p50 <= summary_of(latencies).p95 <= summary_of(latencies).p99,
        latencies.contains(summary_of(latencies).first),
        latencies.contains(summary_of(latencies).p50),
        latencies.contains(summary_of(latencies).p95),
        latencies.contains(summary_of(latencies).p99),
{
    lemma_in_order_len(latencies);
    let n = latencies.len();
    assert(n * 50 / 100 <= n * 95 / 100 <= n * 99 / 100 < n);
    let sorted = in_order(latencies);
    assert forall|i: int| 0 <= i < n implies latencies.contains(#[trigger] sorted[i]) by {
        broadcast use group_to_multiset_ensures;

        assert(sorted.contains(sorted[i]));
        assert(sorted.to_multiset().count(sorted[i]) > 0);
    }
    let i = percentile_index(n, 50) as int;
    let j = percentile_index(n, 95) as int;
    let k = percentile_index(n, 99) as int;
    assert(i == j || at_most()(sorted[i], sorted[j]));
    assert(j == k || at_most()(sorted[j], sorted[k]));
}

/// How many latencies have a property.
pub open spec fn how_many(latencies: Seq<u128>, property: spec_fn(u128) -> bool) -> nat
    decreases latencies.len(),
{
    if latencies.len() == 0 {
        0
    } else {
        how_many(latencies.drop_last(), property) + if property(latencies.last()) {
            1nat
        } else {
            0nat
        }
    }
}

/// How many latencies have a property does not depend on their order.
proof fn lemma_how_many_in_multiset(latencies: Seq<u128>, property: spec_fn(u128) -> bool)
    ensures
        how_many(latencies, property) == latencies.to_multiset().filter(property).len(),
    decreases latencies.len(),
{
    broadcast use group_to_multiset_ensures;

    let all = latencies.to_multiset().filter(property);
    if latencies.len() == 0 {
        assert(all =~= Multiset::empty());
    } else {
        let earlier = latencies.drop_last();
        let some = earlier.to_multiset().filter(property);
        lemma_how_many_in_multiset(earlier, property);
        assert(latencies =~= earlier.push(latencies.last()));
        if property(latencies.last()) {
            assert(all =~= some.insert(latencies.last()));
        } else {
            assert(all =~= some);
        }
    }
}

/// Bounds on how many latencies have a property, when all before some place have it
/// or none from some place on has it.
proof fn lemma_how_many_bounds(
    latencies: Seq<u128>,
    property: spec_fn(u128) -> bool,
    place: nat,
)
    requires
        place <= latencies.len(),
    ensures
        (forall|i: int| 0 <= i < place ==> property(#[trigger] latencies[i])) ==> how_many(
            latencies,
            property,
        ) >= place,
        (forall|i: int| place <= i < latencies.len() ==> !property(#[trigger] latencies[i]))
            ==> how_many(latencies, property) <= place,
        how_many(latencies, property) <= latencies.len(),
    decreases latencies.len(),
{
    if latencies.len() > 0 {
        let earlier = latencies.drop_last();
        if place == latencies.len() {
            lemma_how_many_bounds(earlier, property, (place - 1) as nat);
            if forall|i: int| 0 <= i < place ==> property(#[trigger] latencies[i]) {
                assert forall|i: int| 0 <= i < place - 1 implies property(
                    #[trigger] earlier[i],
                ) by {
                    assert(earlier[i] == latencies[i]);
                }
                assert(property(latencies[latencies.len() - 1]));
            }
        } else {
            lemma_how_many_bounds(earlier, property, place);
            if forall|i: int| 0 <= i < place ==> property(#[trigger] latencies[i]) {
                assert forall|i: int| 0 <= i < place implies property(#[trigger] earlier[i]) by {
                    assert(earlier[i] == latencies[i]);
                }
            }
            if forall|i: int|
                place <= i < latencies.len() ==> !property(#[trigger] latencies[i]) {
                assert forall|i: int| place <= i < earlier.len() implies !property(
                    #[trigger] earlier[i],
                ) by {
                    assert(earlier[i] == latencies[i]);
                }
                assert(!property(latencies[latencies.len() - 1]));
            }
        }
    }
}

/// A percentile splits the latencies: no more of them than its place are smaller,
/// and more than its place are at most as large.
pub proof fn law_percentile_rank(latencies: Seq<u128>, percent: nat)
    requires
        latencies.len() > 0,
        percent < 100,
    ensures
        ({
            let value = percentile(latencies, percent);
            let place = percentile_index(latencies.len(), percent);
            &&& how_many(latencies, |l: u128| l < value) <= place
            &&& how_many(latencies, |l: u128| l <= value) > place
        }),
{
    let value = percentile(latencies, percent);
    let place = percentile_index(latencies.len(), percent);
    let count = latencies.len();
    assert(count * percent / 100 < count) by (nonlinear_arith)
        requires
            0 < count,
            percent < 100,
    ;
    let sorted = in_order(latencies);
    lemma_in_order_len(latencies);
    let smaller = |l: u128| l < value;
    let up_to = |l: u128| l <= value;
    lemma_how_many_in_multiset(latencies, smaller);
    lemma_how_many_in_multiset(sorted, smaller);
    lemma_how_many_in_multiset(latencies, up_to);
    lemma_how_many_in_multiset(sorted, up_to);
    assert forall|i: int| place <= i < sorted.len() implies !smaller(#[trigger] sorted[i]) by {
        assert(i == place || at_most()(sorted[place as int], sorted[i]));
    }
    assert forall|i: int| 0 <= i < place + 1 implies up_to(#[trigger] sorted[i]) by {
        assert(i == place || at_most()(sorted[i], sorted[place as int]));
    }
    lemma_how_many_bounds(sorted, smaller, place);
    lemma_how_many_bounds(sorted, up_to, place + 1);
}

/// The percentiles do not depend on the order in which the latencies were
/// measured.
pub proof fn law_percentiles_ignore_order(a: Seq<u128>, b: Seq<u128>, percent: nat)
    requires
        a.to_multiset() == b.to_multiset(),
    ensures
        percentile(a, percent) == percentile(b, percent),
{
    lemma_in_order_len(a);
    lemma_in_order_len(b);
    law_in_order(a, in_order(b));
    broadcast use group_to_multiset_ensures;

    assert(a.len() == a.to_multiset().len());
    assert(b.len() == b.to_multiset().len());
}

/// The latencies in order ascend, and are the latencies that were measured.
pub proof fn law_in_order_ascends(latencies: Seq<u128>)
    ensures
        in_order(latencies).len() == latencies.len(),
        in_order(latencies).to_multiset() == latencies.to_multiset(),
        forall|i: int, j: int|
            0 <= i <= j < latencies.len() ==> #[trigger] in_order(latencies)[i]
                <= #[trigger] in_order(latencies)[j],
{
    lemma_in_order_len(latencies);
    let sorted = in_order(latencies);
    assert forall|i: int, j: int| 0 <= i <= j < latencies.len() implies #[trigger] sorted[i]
        <= #[trigger] sorted[j] by {
        assert(i == j || at_most()(sorted[i], sorted[j]));
    }
}

/// The place of a percentile is its share of the count, rounded down.
pub proof fn law_percentile_index(count: nat, percent: nat)
    ensures
        100 * percentile_index(count, percent) <= count * percent < 100 * percentile_index(
            count,
            percent,
        ) + 100,
{
    let share = count * percent;
    assert(100 * (share / 100) <= share < 100 * (share / 100) + 100);
}

/// Counting latencies is counting those that a filter keeps.
proof fn lemma_how_many_filtered(latencies: Seq<u128>, property: spec_fn(u128) -> bool)
    ensures
        how_many(latencies, property) == latencies.filter(property).len(),
    decreases latencies.len(),
{
    reveal(Seq::filter);
    if latencies.len() > 0 {
        lemma_how_many_filtered(latencies.drop_last(), property);
    }
}

/// The summary of a run starts with the latency that was measured first. Each percentile
/// has its rank among all latencies that were measured, repeated ones included: no more
/// than its share of them are smaller, and more than its share are at most as large.
pub proof fn law_summary_ranks(latencies: Seq<u128>)
    requires
        latencies.len() > 0,
    ensures
        ({
            let n = latencies.len();
            let summary = summary_of(latencies);
            &&& summary.first == latencies[0]
            &&& latencies.filter(|l: u128| l < summary.p50).len() <= n * 50 / 100
            &&& latencies.filter(|l: u128| l <= summary.p50).len() > n * 50 / 100
            &&& latencies.filter(|l: u128| l < summary.p95).len() <= n * 95 / 100
            &&& latencies.filter(|l: u128| l <= summary.p95).len() > n * 95 / 100
            &&& latencies.filter(|l: u128| l < summary.p99).len() <= n * 99 / 100
            &&& latencies.filter(|l: u128| l <= summary.p99).len() > n * 99 / 100
        }),
{
    let summary = summary_of(latencies);
    law_percentile_rank(latencies, 50);
    law_percentile_rank(latencies, 95);
    law_percentile_rank(latencies, 99);
    lemma_how_many_filtered(latencies, |l: u128| l < summary.p50);
    lemma_how_many_filtered(latencies, |l: u128| l <= summary.p50);
    lemma_how_many_filtered(latencies, |l: u128| l < summary.p95);
    lemma_how_many_filtered(latencies, |l: u128| l <= summary.p95);
    lemma_how_many_filtered(latencies, |l: u128| l < summary.p99);
    lemma_how_many_filtered(latencies, |l: u128| l <= summary.p99);
}

/// Once the latencies of a run ascend, the summary can be read off at fixed shares of
/// their number.
pub proof fn law_summary_of_ascending(latencies: Seq<u128>, ascending: Seq<u128>)
    requires
        latencies.len() > 0,
        ascending.to_multiset() == latencies.to_multiset(),
        forall|i: int, j: int| 0 <= i <= j < ascending.len() ==> ascending[i] <= ascending[j],
    ensures
        summary_of(latencies).first == latencies[0],
        summary_of(latencies).p50 == ascending[(latencies.len() * 50 / 100) as int],
        summary_of(latencies).p95 == ascending[(latencies.len() * 95 / 100) as int],
        summary_of(latencies).p99 == ascending[(latencies.len() * 99 / 100) as int],
{
    law_in_order(latencies, ascending);
}

/// A line on a time consists of its label, the digits of the time, and the unit; reading
/// the digits back gives the time.
pub proof fn law_micros_line(label: Seq<char>, micros: u128)
    ensures
        ({
            let line = micros_line(label, micros);
            let digits = line.subrange(label.len() as int, line.len() - 3);
            &&& line.len() > label.len() + 3
            &&& line.take(label.len() as int) == label
            &&& line.skip(line.len() - 3) == " us"@
            &&& digits == decimal(micros as nat)
            &&& decimal_value(digits) == micros
        }),
{
    reveal_strlit(" us");
    law_decimal_digits(micros as nat);
    law_decimal_reads_back(micros as nat);
    let line = micros_line(label, micros);
    assert(line.take(label.len() as int) =~= label);
    assert(line.skip(line.len() - 3) =~= " us"@);
    assert(line.subrange(label.len() as int, line.len() - 3) =~= decimal(micros as nat));
}

/// A summary is printed in four lines, which show its four times in order, each under
/// its own label.
pub proof fn law_summary_lines(first_label: Seq<char>, summary: LatencySummary)
    ensures
        ({
            let lines = summary_lines(first_label, summary);
            &&& lines.len() == 4
            &&& lines[0] == first_label + decimal(summary.first as nat) + " us"@
            &&& lines[1] == "p50: "@ + decimal(summary.p50 as nat) + " us"@
            &&& lines[2] == "p95: "@ + decimal(summary.p95 as nat) + " us"@
            &&& lines[3] == "p99: "@ + decimal(summary.p99 as nat) + " us"@
        }),
{
}

} // verus!
