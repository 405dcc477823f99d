//! The echo breakdown: one request collects a timestamp in each part of the system
//! that it passes, and the timestamps are set out step by step.
//!
//! A message of the breakdown holds the number of timestamps in its first byte,
//! then the timestamps as 16-bit little-endian numbers, in microseconds.

use crate::latency::{label_micros, micros_line};
use crate::text::{
    decimal, decimal_left_aligned, decimal_right_aligned, hex_byte, law_right_aligned,
    law_u16_digits, left_aligned, push_hex_byte, right_aligned, texts,
};
use crate::wire::{law_le_bytes, le_bytes};
use vstd::prelude::*;
use vstd::string::*;

verus! {

/// Number of bytes in front of the timestamps.
pub const HEADER_SIZE: usize = 1;

/// Number of timestamps that a message has room for.
pub const MAX_NUM_STEPS: usize = 16;

/// Number of bytes in the message that is sent.
pub const DATA_SIZE: usize = HEADER_SIZE + MAX_NUM_STEPS * 2;

/// Number of timestamps that are read from a response: as many as it announces, as
/// far as it holds them whole.
pub open spec fn step_count(response: Seq<u8>) -> nat
    recommends
        response.len() >= HEADER_SIZE,
{
    let held = ((response.len() - HEADER_SIZE) / 2) as nat;
    if (response[0] as nat) < held {
        response[0] as nat
    } else {
        held
    }
}

/// A timestamp of a response.
pub open spec fn timestamp(response: Seq<u8>, step: int) -> u16 {
    (response[HEADER_SIZE + 2 * step] + 256 * response[HEADER_SIZE + 2 * step + 1]) as u16
}

/// The time between two readings of a 16-bit clock, which may wrap around once in
/// between.
pub open spec fn elapsed(from: u16, to: u16) -> u16 {
    if to >= from {
        (to - from) as u16
    } else {
        (to + 0x1_0000 - from) as u16
    }
}

/// One step of the breakdown.
#[derive(Clone, Copy, Debug, PartialEq, Eq, Structural)]
pub struct Step {
    /// The timestamp that was taken.
    pub timestamp: u16,
    /// The time since the step before; the first step has none.
    pub delta: Option<u16>,
}

/// One step of the breakdown of a response.
pub open spec fn step_of(response: Seq<u8>, step: int) -> Step {
    Step {
        timestamp: timestamp(response, step),
        delta: if step == 0 {
            None
        } else {
            Some(elapsed(timestamp(response, step - 1), timestamp(response, step)))
        },
    }
}

/// The steps of a response.
pub open spec fn steps_of(response: Seq<u8>) -> Seq<Step> {
    Seq::new(step_count(response), |step: int| step_of(response, step))
}

/// The time from the first step of a response to its last, if it has any.
pub open spec fn total_of(response: Seq<u8>) -> Option<u16> {
    if step_count(response) == 0 {
        None
    } else {
        Some(elapsed(timestamp(response, 0), timestamp(response, step_count(response) - 1)))
    }
}

/// The breakdown of a request.
#[derive(Debug)]
pub struct EchoBreakdown {
    /// The steps, in the order they were taken.
    pub steps: Vec<Step>,
    /// The time from the first step to the last, if there is any.
    pub total: Option<u16>,
}

/// Bytes as a list of quoted hexadecimal numbers, without the brackets.
pub open spec fn hex_list(bytes: Seq<u8>) -> Seq<char>
    decreases bytes.len(),
{
    if bytes.len() == 0 {
        Seq::empty()
    } else if bytes.len() == 1 {
        quoted_hex(bytes[0])
    } else {
        hex_list(bytes.drop_last()) + ", "@ + quoted_hex(bytes.last())
    }
}

/// A byte as a hexadecimal number between quotes.
pub open spec fn quoted_hex(b: u8) -> Seq<char> {
    seq!['"'] + hex_byte(b) + seq!['"']
}

/// The line that shows the timestamps of a message as they are on the wire.
pub open spec fn raw_payload(message: Seq<u8>) -> Seq<char> {
    "Raw Payload: ["@ + hex_list(message.skip(HEADER_SIZE as int)) + "]"@
}

/// The line that shows one step.
pub open spec fn step_text(index: nat, step: Step) -> Seq<char> {
    left_aligned(decimal(index), 2) + " | Timestamp "@ + right_aligned(
        decimal(step.timestamp as nat),
        5,
    ) + " us"@ + match step.delta {
        Some(delta) => " | Delta "@ + right_aligned(decimal(delta as nat), 5) + " us"@,
        None => " | First Step"@,
    }
}

/// The lines that show steps.
pub open spec fn step_texts(steps: Seq<Step>) -> Seq<Seq<char>> {
    Seq::new(steps.len(), |i: int| step_text(i as nat, steps[i]))
}

/// The line that shows the total, if there is one.
pub open spec fn total_text(total: Option<u16>) -> Seq<Seq<char>> {
    match total {
        Some(micros) => seq![micros_line("Total time elapsed: "@, micros as u128)],
        None => Seq::empty(),
    }
}

/// The lines that show the breakdown of a response.
pub open spec fn breakdown_text(response: Seq<u8>) -> Seq<Seq<char>> {
    seq![raw_payload(response)] + step_texts(steps_of(response)) + total_text(total_of(response))
}

/// The message that is sent: no timestamps yet, and room for all of them.
pub fn request() -> (data: Vec<u8>)
    ensures
        data@ == Seq::new(DATA_SIZE as nat, |i: int| 0u8),
{
    let mut data: Vec<u8> = Vec::new();
    data.resize(DATA_SIZE, 0);
    assert(data@ =~= Seq::new(DATA_SIZE as nat, |i: int| 0u8));
    data
}

/// Sets the timestamps of a response out step by step.
pub fn break_down(response: &[u8]) -> (breakdown: EchoBreakdown)
    requires
        response@.len() >= HEADER_SIZE,
    ensures
        breakdown.steps@ == steps_of(response@),
        breakdown.total == total_of(response@),
{
    let held: usize = (response.len() - HEADER_SIZE) / 2;
    let announced: usize = response[0] as usize;
    let count: usize = if announced < held {
        announced
    } else {
        held
    };
    let mut steps: Vec<Step> = Vec::new();
    let mut first: Option<u16> = None;
    let mut last: Option<u16> = None;
    let mut i: usize = 0;
    while i < count
        invariant
            i <= count,
            count == step_count(response@),
            HEADER_SIZE + 2 * count <= response@.len(),
            steps@.len() == i,
            forall|j: int| 0 <= j < i ==> #[trigger] steps@[j] == step_of(response@, j),
            i == 0 ==> first is None && last is None,
            i > 0 ==> first == Some(timestamp(response@, 0)) && last == Some(
                timestamp(response@, i - 1),
            ),
        decreases count - i,
    {
        let at: usize = HEADER_SIZE + 2 * i;
        let stamp: u16 = response[at] as u16 + 256 * (response[at + 1] as u16);
        if first.is_none() {
            first = Some(stamp);
        }
        let delta: Option<u16> = match last {
            Some(previous) => Some(stamp.wrapping_sub(previous)),
            None => None,
        };
        steps.push(Step { timestamp: stamp, delta });
        last = Some(stamp);
        i += 1;
    }
    let total: Option<u16> = match (first, last) {
        (Some(from), Some(to)) => Some(to.wrapping_sub(from)),
        _ => None,
    };
    assert(steps@ =~= steps_of(response@));
    EchoBreakdown { steps, total }
}

/// The line that shows the timestamps of a message as they are on the wire.
pub fn raw_payload_line(message: &[u8]) -> (line: String)
    requires
        message@.len() >= HEADER_SIZE,
    ensures
        line@ == raw_payload(message@),
{
    let ghost stamps = message@.skip(HEADER_SIZE as int);
    let mut line = "Raw Payload: [".to_owned();
    let mut i: usize = HEADER_SIZE;
    assert(stamps.take(0) =~= Seq::empty());
    while i < message.len()
        invariant
            HEADER_SIZE <= i <= message@.len(),
            stamps == message@.skip(HEADER_SIZE as int),
            line@ == "Raw Payload: ["@ + hex_list(stamps.take(i - HEADER_SIZE)),
        decreases message@.len() - i,
    {
        let ghost taken = stamps.take(i + 1 - HEADER_SIZE);
        if i > HEADER_SIZE {
            line.append(", ");
        }
        line.push('"');
        push_hex_byte(&mut line, message[i]);
        line.push('"');
        proof {
            assert(taken.drop_last() =~= stamps.take(i - HEADER_SIZE));
            assert(taken.last() == message@[i as int]);
            assert(line@ =~= "Raw Payload: ["@ + hex_list(taken));
        }
        i += 1;
    }
    assert(stamps.take(message@.len() - HEADER_SIZE) =~= stamps);
    line.append("]");
    line
}

/// The line that shows one step.
pub fn step_line(index: usize, step: Step) -> (line: String)
    ensures
        line@ == step_text(index as nat, step),
{
    let mut line = decimal_left_aligned(index as u128, 2);
    line.append(" | Timestamp ");
    line.append(decimal_right_aligned(step.timestamp as u128, 5).as_str());
    line.append(" us");
    match step.delta {
        Some(delta) => {
            let mut rest = " | Delta ".to_owned();
            rest.append(decimal_right_aligned(delta as u128, 5).as_str());
            rest.append(" us");
            line.append(rest.as_str());
        },
        None => {
            line.append(" | First Step");
        },
    }
    line
}

/// The lines that show the breakdown of a response.
pub fn breakdown_lines(response: &[u8]) -> (lines: Vec<String>)
    requires
        response@.len() >= HEADER_SIZE,
    ensures
        texts(lines@) == breakdown_text(response@),
{
    let breakdown = break_down(response);
    let mut lines: Vec<String> = Vec::new();
    lines.push(raw_payload_line(response));
    let ghost shown = step_texts(steps_of(response@));
    let mut i: usize = 0;
    while i < breakdown.steps.len()
        invariant
            i <= breakdown.steps@.len(),
            breakdown.steps@ == steps_of(response@),
            shown == step_texts(steps_of(response@)),
            lines@.len() == i + 1,
            lines@[0]@ == raw_payload(response@),
            forall|j: int| 0 <= j < i ==> (#[trigger] lines@[j + 1])@ == shown[j],
        decreases breakdown.steps@.len() - i,
    {
        lines.push(step_line(i, breakdown.steps[i]));
        i += 1;
    }
    assert(texts(lines@) =~= seq![raw_payload(response@)] + shown) by {
        assert forall|j: int| 0 <= j < lines@.len() implies (#[trigger] texts(lines@)[j]) == (seq![
            raw_payload(response@),
        ] + shown)[j] by {
            if j > 0 {
                assert(lines@[(j - 1) + 1]@ == shown[j - 1]);
            }
        }
    }
    if let Some(total) = breakdown.total {
        let ghost before = lines@;
        lines.push(label_micros("Total time elapsed: ", total as u128));
        assert(texts(lines@) =~= texts(before) + total_text(breakdown.total));
    } else {
        assert(texts(lines@) =~= texts(lines@) + total_text(breakdown.total));
    }
    lines
}

/// The sum of the times between steps.
pub open spec fn delta_sum(steps: Seq<Step>) -> nat
    decreases steps.len(),
{
    if steps.len() == 0 {
        0
    } else {
        delta_sum(steps.drop_last()) + match steps.last().delta {
            Some(delta) => delta as nat,
            None => 0,
        }
    }
}

/// The time between two readings of the clock is what has to be added to the first
/// to come to the second, modulo the range of the clock.
pub proof fn law_elapsed(from: u16, to: u16)
    ensures
        (from + elapsed(from, to)) % 0x1_0000 == to,
        from <= to ==> elapsed(from, to) == to - from,
{
}

/// The times between the steps add up to the total, modulo the range of the clock.
pub proof fn law_deltas_add_up(response: Seq<u8>)
    requires
        response.len() >= HEADER_SIZE,
    ensures
        total_of(response) matches Some(total) ==> delta_sum(steps_of(response)) % 0x1_0000
            == total,
        total_of(response) is None ==> steps_of(response).len() == 0,
{
    if step_count(response) > 0 {
        lemma_partial_delta_sum(response, step_count(response));
        assert(steps_of(response).take(step_count(response) as int) =~= steps_of(response));
    }
}

/// The times between the first steps add up to the time between the first and the
/// last of them.
proof fn lemma_partial_delta_sum(response: Seq<u8>, count: nat)
    requires
        response.len() >= HEADER_SIZE,
        0 < count <= step_count(response),
    ensures
        delta_sum(steps_of(response).take(count as int)) % 0x1_0000 == elapsed(
            timestamp(response, 0),
            timestamp(response, count - 1),
        ),
    decreases count,
{
    let steps = steps_of(response).take(count as int);
    let earlier = steps_of(response).take(count - 1);
    assert(steps.drop_last() =~= earlier);
    assert(steps.last() == step_of(response, count - 1));
    if count == 1 {
        assert(earlier =~= Seq::empty());
        assert(delta_sum(earlier) == 0);
    } else {
        lemma_partial_delta_sum(response, (count - 1) as nat);
        lemma_elapsed_adds(
            delta_sum(earlier),
            timestamp(response, 0),
            timestamp(response, count - 2),
            timestamp(response, count - 1),
        );
    }
}

/// The time from one reading to a second, and from there to a third, adds up to the time
/// from the first to the third.
proof fn lemma_elapsed_adds(sum: nat, a: u16, b: u16, c: u16)
    requires
        sum % 0x1_0000 == elapsed(a, b),
    ensures
        (sum + elapsed(b, c)) % 0x1_0000 == elapsed(a, c),
{
    let rounds = sum / 0x1_0000;
    assert(sum == 0x1_0000 * rounds + elapsed(a, b));
    let both = elapsed(a, b) + elapsed(b, c);
    assert(both == elapsed(a, c) || both == elapsed(a, c) + 0x1_0000);
}

/// A response as long as the request never shows more steps than it has room for,
/// nor more than it announces.
pub proof fn law_step_count_bounded(response: Seq<u8>)
    requires
        response.len() == DATA_SIZE,
    ensures
        steps_of(response).len() <= MAX_NUM_STEPS,
        steps_of(response).len() <= response[0],
        response[0] <= MAX_NUM_STEPS ==> steps_of(response).len() == response[0],
{
}

/// As many steps are shown as the response announces, or as it holds whole if that is
/// fewer.
pub proof fn law_step_count(response: Seq<u8>)
    requires
        response.len() >= 1,
    ensures
        ({
            let count = steps_of(response).len();
            &&& count <= response[0]
            &&& 1 + 2 * count <= response.len()
            &&& count == response[0] || response.len() < 1 + 2 * (count + 1)
        }),
{
}

/// Every timestamp is the value of its own two bytes: a response that holds the number of
/// some timestamps, and then the little-endian bytes of one after the other, shows
/// exactly these timestamps, whatever follows them.
pub proof fn law_timestamps_read_back(stamps: Seq<u16>, response: Seq<u8>)
    requires
        stamps.len() <= 255,
        response.len() >= 1 + 2 * stamps.len(),
        response[0] == stamps.len(),
        forall|i: int|
            0 <= i < stamps.len() ==> response.subrange(1 + 2 * i, 3 + 2 * i) == #[trigger] le_bytes(
                stamps[i] as nat,
                2,
            ),
    ensures
        steps_of(response).len() == stamps.len(),
        forall|i: int|
            0 <= i < stamps.len() ==> (#[trigger] steps_of(response)[i]).timestamp == stamps[i],
{
    assert forall|i: int| 0 <= i < stamps.len() implies (#[trigger] steps_of(
        response,
    )[i]).timestamp == stamps[i] by {
        let n = stamps[i] as nat;
        let bytes = response.subrange(1 + 2 * i, 3 + 2 * i);
        assert(bytes == le_bytes(n, 2));
        law_le_bytes(n, 2);
        law_le_bytes(n / 256, 1);
        assert(bytes[0] == response[1 + 2 * i]);
        assert(bytes[1] == bytes.skip(1)[0]);
        assert(bytes[1] == response[2 + 2 * i]);
        assert(n == bytes[0] + 256 * bytes[1]);
    }
}

/// The bytes of a step's timestamp, and no others, make up its value.
pub proof fn law_timestamp_bytes(response: Seq<u8>, step: int)
    requires
        response.len() >= 1,
        0 <= step < steps_of(response).len(),
    ensures
        steps_of(response)[step].timestamp == response[1 + 2 * step] + 256 * response[2 + 2 * step],
{
}

/// The first step has no delta. The delta of any other leads from the timestamp before it
/// to its own, modulo the range of the clock, and the total from the first timestamp to
/// the last. There is a total when there is any step.
pub proof fn law_deltas_lead_from_step_to_step(response: Seq<u8>)
    requires
        response.len() >= 1,
    ensures
        ({
            let steps = steps_of(response);
            &&& steps.len() > 0 ==> steps[0].delta is None
            &&& forall|i: int|
                0 < i < steps.len() ==> ((#[trigger] steps[i]).delta matches Some(delta) && (steps[i
                    - 1].timestamp + delta) % 0x1_0000 == steps[i].timestamp)
            &&& total_of(response) is None <==> steps.len() == 0
            &&& total_of(response) matches Some(total) ==> (steps[0].timestamp + total) % 0x1_0000
                == steps[steps.len() - 1].timestamp
        }),
{
}

/// The items of a list of bytes are six characters apart: a byte's digits between
/// quotes, and a comma and a space between two items.
pub proof fn law_hex_list_layout(bytes: Seq<u8>)
    ensures
        bytes.len() == 0 ==> hex_list(bytes).len() == 0,
        bytes.len() > 0 ==> hex_list(bytes).len() == 6 * bytes.len() - 2,
        forall|i: int|
            0 <= i < bytes.len() ==> hex_list(bytes).subrange(6 * i, 6 * i + 4) == seq!['"']
                + hex_byte(#[trigger] bytes[i]) + seq!['"'],
        forall|i: int|
            0 < i < bytes.len() ==> hex_list(bytes).subrange(6 * i - 2, 6 * i + 4) == seq![
                ',',
                ' ',
                '"',
            ] + hex_byte(#[trigger] bytes[i]) + seq!['"'],
    decreases bytes.len(),
{
    reveal_strlit(", ");
    if bytes.len() == 1 {
        assert(hex_list(bytes).subrange(0, 4) =~= quoted_hex(bytes[0]));
    } else if bytes.len() > 1 {
        let earlier = bytes.drop_last();
        law_hex_list_layout(earlier);
        let list = hex_list(bytes);
        let n = bytes.len() as int;
        assert(list =~= hex_list(earlier) + ", "@ + quoted_hex(bytes.last()));
        assert forall|i: int| 0 <= i < n implies list.subrange(6 * i, 6 * i + 4) == seq!['"']
            + hex_byte(#[trigger] bytes[i]) + seq!['"'] by {
            if i < n - 1 {
                assert(earlier[i] == bytes[i]);
                assert(list.subrange(6 * i, 6 * i + 4) =~= hex_list(earlier).subrange(
                    6 * i,
                    6 * i + 4,
                ));
            } else {
                assert(list.subrange(6 * i, 6 * i + 4) =~= quoted_hex(bytes[i]));
            }
        }
        assert forall|i: int| 0 < i < n implies list.subrange(6 * i - 2, 6 * i + 4) == seq![
            ',',
            ' ',
            '"',
        ] + hex_byte(#[trigger] bytes[i]) + seq!['"'] by {
            if i < n - 1 {
                assert(earlier[i] == bytes[i]);
                assert(list.subrange(6 * i - 2, 6 * i + 4) =~= hex_list(earlier).subrange(
                    6 * i - 2,
                    6 * i + 4,
                ));
            } else {
                assert(list.subrange(6 * i - 2, 6 * i + 4) =~= seq![',', ' ', '"'] + hex_byte(
                    bytes[i],
                ) + seq!['"']);
            }
        }
    }
}

/// The raw payload shows every byte behind the header, in brackets behind fixed words.
pub proof fn law_raw_payload(message: Seq<u8>)
    requires
        message.len() >= 1,
    ensures
        raw_payload(message).take(14) == "Raw Payload: ["@,
        raw_payload(message).subrange(14, raw_payload(message).len() - 1) == hex_list(
            message.skip(1),
        ),
        raw_payload(message).len() == 15 + hex_list(message.skip(1)).len(),
        raw_payload(message).last() == ']',
{
    reveal_strlit("Raw Payload: [");
    reveal_strlit("]");
    let text = raw_payload(message);
    assert(text.take(14) =~= "Raw Payload: ["@);
    assert(text.subrange(14, text.len() - 1) =~= hex_list(message.skip(1)));
}

/// A line on a step shows in fixed columns its number, its timestamp and its delta, or
/// that it is the first.
pub proof fn law_step_columns(index: nat, step: Step)
    ensures
        ({
            let text = step_text(index, step);
            let at = left_aligned(decimal(index), 2).len() as int;
            &&& text.take(at) == left_aligned(decimal(index), 2)
            &&& text.subrange(at, at + 13) == " | Timestamp "@
            &&& text.subrange(at + 13, at + 18) == right_aligned(decimal(step.timestamp as nat), 5)
            &&& text.subrange(at + 18, at + 21) == " us"@
            &&& step.delta is None ==> text.skip(at + 21) == " | First Step"@
            &&& step.delta matches Some(delta) ==> {
                &&& text.len() == at + 38
                &&& text.subrange(at + 21, at + 30) == " | Delta "@
                &&& text.subrange(at + 30, at + 35) == right_aligned(decimal(delta as nat), 5)
                &&& text.subrange(at + 35, at + 38) == " us"@
            }
        }),
{
    reveal_strlit(" | Timestamp ");
    reveal_strlit(" us");
    reveal_strlit(" | Delta ");
    let text = step_text(index, step);
    let number = left_aligned(decimal(index), 2);
    let stamp = right_aligned(decimal(step.timestamp as nat), 5);
    let at = number.len() as int;
    law_u16_digits(step.timestamp);
    law_right_aligned(decimal(step.timestamp as nat), 5);
    assert(text.take(at) =~= number);
    assert(text.subrange(at, at + 13) =~= " | Timestamp "@);
    assert(text.subrange(at + 13, at + 18) =~= stamp);
    assert(text.subrange(at + 18, at + 21) =~= " us"@);
    match step.delta {
        Some(delta) => {
            law_u16_digits(delta);
            law_right_aligned(decimal(delta as nat), 5);
            assert(text.subrange(at + 21, at + 30) =~= " | Delta "@);
            assert(text.subrange(at + 30, at + 35) =~= right_aligned(decimal(delta as nat), 5));
            assert(text.subrange(at + 35, at + 38) =~= " us"@);
        },
        None => {
            assert(text.skip(at + 21) =~= " | First Step"@);
        },
    }
}

/// The report on a response shows its raw payload, then one line for each step under its
/// number, then the total if there is any step.
pub proof fn law_breakdown_report(response: Seq<u8>)
    requires
        response.len() >= 1,
    ensures
        ({
            let lines = breakdown_text(response);
            let steps = steps_of(response);
            &&& lines[0] == raw_payload(response)
            &&& forall|i: int|
                0 <= i < steps.len() ==> lines[1 + i] == step_text(i as nat, #[trigger] steps[i])
            &&& steps.len() == 0 ==> lines.len() == 1
            &&& steps.len() > 0 ==> {
                &&& lines.len() == steps.len() + 2
                &&& total_of(response) matches Some(total) && lines[steps.len() + 1int]
                    == "Total time elapsed: "@ + decimal(total as nat) + " us"@
            }
        }),
{
}

} // verus!
