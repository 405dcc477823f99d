//! The messages that the benchmark exchanges with the gateway: a length as a
//! 32-bit little-endian number, then that many bytes.

use vstd::prelude::*;
use vstd::slice::*;

verus! {

/// Number of bytes that the length in front of a message takes.
pub const LENGTH_SIZE: usize = 4;

/// The `width` little-endian bytes of a number.
pub open spec fn le_bytes(n: nat, width: nat) -> Seq<u8>
    decreases width,
{
    if width == 0 {
        Seq::empty()
    } else {
        seq![(n % 256) as u8] + le_bytes(n / 256, (width - 1) as nat)
    }
}

/// The number that a run of little-endian bytes stands for.
pub open spec fn le_value(bytes: Seq<u8>) -> nat
    decreases bytes.len(),
{
    if bytes.len() == 0 {
        0
    } else {
        bytes[0] as nat + 256 * le_value(bytes.drop_first())
    }
}

/// A message as it goes over the wire.
pub open spec fn framed(data: Seq<u8>) -> Seq<u8> {
    le_bytes(data.len(), LENGTH_SIZE as nat) + data
}

/// The length that the first bytes of a frame announce.
pub open spec fn announced_len(frame: Seq<u8>) -> nat
    recommends
        frame.len() >= LENGTH_SIZE,
{
    le_value(frame.take(LENGTH_SIZE as int))
}

/// Whether a run of bytes holds a whole message.
pub open spec fn holds_message(frame: Seq<u8>) -> bool {
    &&& frame.len() >= LENGTH_SIZE
    &&& LENGTH_SIZE + announced_len(frame) <= frame.len()
}

/// The message in a run of bytes: as many bytes behind the length as it announces.
pub open spec fn message_in(frame: Seq<u8>) -> Seq<u8>
    recommends
        holds_message(frame),
{
    frame.subrange(LENGTH_SIZE as int, LENGTH_SIZE + announced_len(frame))
}

/// Number of bytes that are still to be received before a message is whole: first
/// those of its length, then as many as the length announces.
pub open spec fn missing_len(received: Seq<u8>) -> nat {
    if received.len() < LENGTH_SIZE {
        (LENGTH_SIZE - received.len()) as nat
    } else if holds_message(received) {
        0
    } else {
        (LENGTH_SIZE + announced_len(received) - received.len()) as nat
    }
}

/// Why no message could be read from a run of bytes.
#[derive(Clone, Copy, Debug, PartialEq, Eq, Structural)]
pub enum FrameError {
    /// The bytes end before the length does.
    NoLength,
    /// The length announces more bytes than follow it.
    Incomplete,
}

/// The four bytes of a little-endian 32-bit number have that number as value.
proof fn lemma_u32_bytes(n: nat)
    requires
        n <= u32::MAX,
    ensures
        le_bytes(n, 4) == seq![
            (n % 256) as u8,
            (n / 256 % 256) as u8,
            (n / 65536 % 256) as u8,
            (n / 16777216 % 256) as u8,
        ],
        le_value(le_bytes(n, 4)) == n,
{
    reveal_with_fuel(le_bytes, 5);
    assert(n / 256 / 256 == n / 65536);
    assert(n / 65536 / 256 == n / 16777216);
    let bytes = seq![
        (n % 256) as u8,
        (n / 256 % 256) as u8,
        (n / 65536 % 256) as u8,
        (n / 16777216 % 256) as u8,
    ];
    assert(le_bytes(n, 4) =~= bytes);
    lemma_four_byte_value(bytes);
}

/// The value of four little-endian bytes.
proof fn lemma_four_byte_value(bytes: Seq<u8>)
    requires
        bytes.len() == 4,
    ensures
        le_value(bytes) == bytes[0] + 256 * bytes[1] + 65536 * bytes[2] + 16777216 * bytes[3],
{
    let one = bytes.drop_first();
    let two = one.drop_first();
    let three = two.drop_first();
    reveal_with_fuel(le_value, 2);
    assert(le_value(three) == bytes[3]) by {
        assert(three.drop_first().len() == 0);
    }
    assert(le_value(two) == bytes[2] + 256 * le_value(three));
    assert(le_value(one) == bytes[1] + 256 * le_value(two));
    assert(le_value(bytes) == bytes[0] + 256 * le_value(one));
}

/// Puts the length of a message in front of it.
pub fn frame_message(data: &[u8]) -> (frame: Vec<u8>)
    requires
        data@.len() <= u32::MAX,
    ensures
        frame@ == framed(data@),
{
    let len: u32 = data.len() as u32;
    let mut frame: Vec<u8> = Vec::new();
    frame.push((len % 256) as u8);
    frame.push((len / 256 % 256) as u8);
    frame.push((len / 65536 % 256) as u8);
    frame.push((len / 16777216 % 256) as u8);
    proof {
        lemma_u32_bytes(len as nat);
        assert(frame@ =~= le_bytes(len as nat, 4));
    }
    frame.extend_from_slice(data);
    assert(frame@ =~= framed(data@));
    frame
}

/// Number of bytes that a message of `data_size` bytes takes with its length.
pub fn frame_len(data_size: usize) -> (len: usize)
    requires
        LENGTH_SIZE + data_size <= usize::MAX,
    ensures
        len == LENGTH_SIZE + data_size,
{
    LENGTH_SIZE + data_size
}

/// Reads the length that the first bytes of a frame announce.
fn read_length(frame: &[u8]) -> (announced: u32)
    requires
        frame@.len() >= LENGTH_SIZE,
    ensures
        announced == announced_len(frame@),
{
    let b0: u32 = frame[0] as u32;
    let b1: u32 = frame[1] as u32;
    let b2: u32 = frame[2] as u32;
    let b3: u32 = frame[3] as u32;
    proof {
        lemma_four_byte_value(frame@.take(4));
    }
    b0 + 256 * b1 + 65536 * b2 + 16777216 * b3
}

/// Reads the message at the start of a run of bytes: first its length, then as
/// many bytes as the length announces. Bytes behind them do not belong to the
/// message.
pub fn read_message(frame: &[u8]) -> (message: Result<Vec<u8>, FrameError>)
    ensures
        match message {
            Ok(data) => holds_message(frame@) && data@ == message_in(frame@),
            Err(FrameError::NoLength) => frame@.len() < LENGTH_SIZE,
            Err(FrameError::Incomplete) => frame@.len() >= LENGTH_SIZE && !holds_message(frame@),
        },
{
    if frame.len() < LENGTH_SIZE {
        return Err(FrameError::NoLength);
    }
    let announced: u32 = read_length(frame);
    let available: usize = frame.len() - LENGTH_SIZE;
    if announced as usize > available {
        return Err(FrameError::Incomplete);
    }
    let data = slice_to_vec(slice_subrange(frame, LENGTH_SIZE, LENGTH_SIZE + announced as usize));
    Ok(data)
}

/// Number of bytes that are still to be received before a message is whole.
pub fn missing_bytes(received: &[u8]) -> (missing: usize)
    ensures
        missing == missing_len(received@),
{
    if received.len() < LENGTH_SIZE {
        return LENGTH_SIZE - received.len();
    }
    let announced: u32 = read_length(received);
    let available: usize = received.len() - LENGTH_SIZE;
    if announced as usize > available {
        announced as usize - available
    } else {
        0
    }
}

/// A message that was framed is read back unchanged, whatever follows it.
pub proof fn law_message_round_trip(data: Seq<u8>, rest: Seq<u8>)
    requires
        data.len() <= u32::MAX,
    ensures
        holds_message(framed(data) + rest),
        message_in(framed(data) + rest) == data,
{
    lemma_u32_bytes(data.len());
    let frame = framed(data) + rest;
    assert(frame.take(LENGTH_SIZE as int) =~= le_bytes(data.len(), 4));
    assert(message_in(frame) =~= data);
}

/// Receiving a framed message takes its length first, then exactly its bytes, and
/// nothing of what follows it.
pub proof fn law_message_received_exactly(data: Seq<u8>, rest: Seq<u8>)
    requires
        data.len() <= u32::MAX,
    ensures
        ({
            let stream = framed(data) + rest;
            let whole = LENGTH_SIZE + data.len();
            &&& missing_len(Seq::empty()) == LENGTH_SIZE
            &&& missing_len(stream.take(LENGTH_SIZE as int)) == data.len()
            &&& missing_len(stream.take(whole as int)) == 0
            &&& message_in(stream.take(whole as int)) == data
        }),
{
    law_framed_len(data);
    lemma_u32_bytes(data.len());
    let stream = framed(data) + rest;
    let header = stream.take(LENGTH_SIZE as int);
    assert(header =~= le_bytes(data.len(), 4));
    assert(header.take(LENGTH_SIZE as int) =~= header);
    assert(stream.take(LENGTH_SIZE + data.len()) =~= framed(data));
    law_message_round_trip(data, Seq::empty());
    assert(framed(data) + Seq::<u8>::empty() =~= framed(data));
}

/// A message is whole when, and only when, nothing is missing any more.
pub proof fn law_nothing_missing(received: Seq<u8>)
    ensures
        missing_len(received) == 0 <==> holds_message(received),
{
}

/// The bytes that make up a number can be read off it again.
proof fn lemma_four_digits(b0: nat, b1: nat, b2: nat, b3: nat)
    requires
        b0 < 256,
        b1 < 256,
        b2 < 256,
        b3 < 256,
    ensures
        ({
            let n = b0 + 256 * b1 + 65536 * b2 + 16777216 * b3;
            &&& n % 256 == b0
            &&& n / 256 % 256 == b1
            &&& n / 65536 % 256 == b2
            &&& n / 16777216 % 256 == b3
        }),
{
    let n = b0 + 256 * b1 + 65536 * b2 + 16777216 * b3;
    let upper = b1 + 256 * b2 + 65536 * b3;
    assert(n == b0 + 256 * upper);
    assert(n / 256 == upper);
    assert(upper % 256 == b1);
    assert(n / 65536 == b2 + 256 * b3);
    assert(n / 16777216 == b3);
}

/// Bytes that hold a message and nothing behind it are the frame of that message.
pub proof fn law_frame_of_message(frame: Seq<u8>)
    requires
        holds_message(frame),
        frame.len() == LENGTH_SIZE + announced_len(frame),
    ensures
        framed(message_in(frame)) == frame,
{
    let bytes = frame.take(LENGTH_SIZE as int);
    let n = le_value(bytes);
    lemma_four_byte_value(bytes);
    lemma_four_digits(bytes[0] as nat, bytes[1] as nat, bytes[2] as nat, bytes[3] as nat);
    lemma_u32_bytes(n);
    assert(le_bytes(n, 4) =~= bytes);
    assert(framed(message_in(frame)) =~= frame);
}

/// A frame is as long as its message and the length in front of it.
pub proof fn law_framed_len(data: Seq<u8>)
    requires
        data.len() <= u32::MAX,
    ensures
        framed(data).len() == LENGTH_SIZE + data.len(),
        announced_len(framed(data)) == data.len(),
{
    lemma_u32_bytes(data.len());
    assert(framed(data).take(LENGTH_SIZE as int) =~= le_bytes(data.len(), 4));
}

/// Two messages with the same frame are the same message.
pub proof fn law_framed_injective(a: Seq<u8>, b: Seq<u8>)
    requires
        a.len() <= u32::MAX,
        b.len() <= u32::MAX,
        framed(a) == framed(b),
    ensures
        a == b,
{
    law_message_round_trip(a, Seq::empty());
    law_message_round_trip(b, Seq::empty());
    assert(framed(a) + Seq::<u8>::empty() =~= framed(b) + Seq::<u8>::empty());
}

/// A frame is the number of its message's bytes, lowest byte first, and then the
/// message.
pub proof fn law_frame_layout(data: Seq<u8>)
    requires
        data.len() <= u32::MAX,
    ensures
        framed(data).len() == 4 + data.len(),
        framed(data)[0] + 256 * framed(data)[1] + 65536 * framed(data)[2] + 16777216 * framed(
            data,
        )[3] == data.len(),
        framed(data).skip(4) == data,
        forall|i: int| 0 <= i < data.len() ==> #[trigger] framed(data)[4 + i] == data[i],
{
    lemma_u32_bytes(data.len());
    let bytes = le_bytes(data.len(), 4);
    lemma_four_byte_value(bytes);
    assert(framed(data)[0] == bytes[0]);
    assert(framed(data)[1] == bytes[1]);
    assert(framed(data)[2] == bytes[2]);
    assert(framed(data)[3] == bytes[3]);
    assert(framed(data).skip(4) =~= data);
}

/// The length that a frame announces is the value of its first four bytes, lowest byte
/// first. The frame holds its message when that many bytes follow, and the message is
/// those bytes.
pub proof fn law_announced_message(frame: Seq<u8>)
    requires
        frame.len() >= 4,
    ensures
        ({
            let announced = frame[0] + 256 * frame[1] + 65536 * frame[2] + 16777216 * frame[3];
            &&& announced_len(frame) == announced
            &&& holds_message(frame) <==> frame.len() >= 4 + announced
            &&& holds_message(frame) ==> {
                &&& message_in(frame).len() == announced
                &&& forall|i: int|
                    0 <= i < announced ==> #[trigger] message_in(frame)[i] == frame[4 + i]
            }
        }),
{
    lemma_four_byte_value(frame.take(LENGTH_SIZE as int));
}

/// Fewer than four bytes hold no message.
pub proof fn law_no_message_without_length(frame: Seq<u8>)
    requires
        frame.len() < 4,
    ensures
        !holds_message(frame),
        frame.len() + missing_len(frame) == 4,
{
}

/// What is missing makes up the difference to four bytes and as many as they announce.
pub proof fn law_missing_len(received: Seq<u8>)
    requires
        received.len() >= 4,
    ensures
        ({
            let whole = 4 + received[0] + 256 * received[1] + 65536 * received[2] + 16777216
                * received[3];
            &&& received.len() <= whole ==> received.len() + missing_len(received) == whole
            &&& received.len() >= whole ==> missing_len(received) == 0
        }),
{
    lemma_four_byte_value(received.take(LENGTH_SIZE as int));
}

/// The little-endian bytes of a number have that number as value, as many bytes as asked
/// for, and the lowest first.
pub proof fn law_le_bytes(n: nat, width: nat)
    ensures
        le_bytes(n, width).len() == width,
        width > 0 ==> le_bytes(n, width)[0] == n % 256,
        width > 0 ==> le_bytes(n, width).skip(1) == le_bytes(n / 256, (width - 1) as nat),
        width == 2 && n < 65536 ==> le_value(le_bytes(n, width)) == n,
        width == 4 && n <= u32::MAX ==> le_value(le_bytes(n, width)) == n,
    decreases width,
{
    if width > 0 {
        law_le_bytes(n / 256, (width - 1) as nat);
        assert(le_bytes(n, width).skip(1) =~= le_bytes(n / 256, (width - 1) as nat));
    }
    if width == 2 && n < 65536 {
        let bytes = le_bytes(n, 2);
        reveal_with_fuel(le_bytes, 3);
        lemma_two_byte_value(bytes);
        assert(bytes[1] == n / 256);
    }
    if width == 4 && n <= u32::MAX {
        lemma_u32_bytes(n);
    }
}

/// The value of two little-endian bytes.
proof fn lemma_two_byte_value(bytes: Seq<u8>)
    requires
        bytes.len() == 2,
    ensures
        le_value(bytes) == bytes[0] + 256 * bytes[1],
{
    let one = bytes.drop_first();
    reveal_with_fuel(le_value, 2);
    assert(le_value(one) == bytes[1]) by {
        assert(one.drop_first().len() == 0);
    }
    assert(le_value(bytes) == bytes[0] + 256 * le_value(one));
}

/// A run of little-endian bytes counts its first byte once and the rest 256 times.
pub proof fn law_le_value(bytes: Seq<u8>)
    ensures
        bytes.len() == 0 ==> le_value(bytes) == 0,
        bytes.len() > 0 ==> le_value(bytes) == bytes[0] + 256 * le_value(bytes.drop_first()),
{
}

} // verus!
