//! Bit-level byte framing for the serializer programs.
//!
//! A byte travels on the wire as one frame: a low start bit, the eight data
//! bits least-significant first, and a high stop bit. The transmit program
//! drives exactly this pattern at one bit per eight coprocessor cycles; the
//! receive program samples it at the same cadence, checks the stop bit, and
//! on a violation raises the framing-error signal instead of delivering a
//! byte — corrupt data is discarded at the hardware boundary and never
//! reaches a buffer.

use vstd::prelude::*;

verus! {

/// Number of line samples in one byte frame: start bit, eight data bits,
/// stop bit.
pub const FRAME_BITS: usize = 10;

/// Bit `i` of `b`, counting from the least significant end.
pub open spec fn bit_of(b: u8, i: u8) -> bool {
    (b >> i) & 1u8 == 1u8
}

/// The frame a byte occupies on the wire, first sample first: `false` is the
/// line driven low, `true` the line high (its idle level).
pub open spec fn frame_of(b: u8) -> Seq<bool> {
    Seq::new(
        FRAME_BITS as nat,
        |i: int|
            if i == 0 {
                false
            } else if i == 9 {
                true
            } else {
                bit_of(b, (i - 1) as u8)
            },
    )
}

/// A sampled frame is valid when it begins with a start bit (line low) and
/// ends with a stop bit (line high).
pub open spec fn frame_valid(bits: Seq<bool>) -> bool {
    bits.len() == FRAME_BITS && !bits[0] && bits[9]
}

/// The byte carried by a sampled frame: data bits least-significant first.
pub open spec fn byte_of(bits: Seq<bool>) -> u8 {
    (if bits[1] { 1u8 } else { 0u8 }) | (if bits[2] { 2u8 } else { 0u8 }) | (if bits[3] {
        4u8
    } else {
        0u8
    }) | (if bits[4] { 8u8 } else { 0u8 }) | (if bits[5] { 16u8 } else { 0u8 }) | (if bits[6] {
        32u8
    } else {
        0u8
    }) | (if bits[7] { 64u8 } else { 0u8 }) | (if bits[8] { 128u8 } else { 0u8 })
}

/// What the receive serializer program delivers for one sampled frame.
pub enum RxOutcome {
    /// A valid frame: the assembled byte, pushed to the hardware receive
    /// queue with the completion signal raised.
    Byte(u8),
    /// An invalid stop condition: the error signal is raised, nothing is
    /// pushed, and the program re-synchronizes on the line.
    FramingError,
}

/// The transmit serializer program's output for one byte: its frame, first
/// sample first.
pub fn frame_byte(b: u8) -> (r: Vec<bool>)
    ensures
        r@ == frame_of(b),
{
    let mut out: Vec<bool> = Vec::new();
    out.push(false);
    let mut i: u8 = 0;
    while i < 8
        invariant
            i <= 8,
            out@.len() == i + 1,
            !out@[0],
            forall|k: int| 1 <= k < i + 1 ==> out@[k] == bit_of(b, (k - 1) as u8),
        decreases 8 - i,
    {
        let bit = (b >> i) & 1 == 1;
        out.push(bit);
        i = i + 1;
    }
    out.push(true);
    proof {
        assert(out@ =~= frame_of(b));
    }
    out
}

/// The receive serializer program's decision for one sampled frame: the
/// assembled byte on a valid frame, the framing error — and no byte — on an
/// invalid one.
pub fn parse_frame(bits: &[bool]) -> (r: RxOutcome)
    requires
        bits@.len() == FRAME_BITS,
    ensures
        frame_valid(bits@) ==> (r matches RxOutcome::Byte(v) && v == byte_of(bits@)),
        !frame_valid(bits@) ==> r is FramingError,
{
    if bits[0] || !bits[9] {
        return RxOutcome::FramingError;
    }
    let v: u8 = (if bits[1] { 1u8 } else { 0u8 }) | (if bits[2] { 2u8 } else { 0u8 }) | (if bits[3] {
        4u8
    } else {
        0u8
    }) | (if bits[4] { 8u8 } else { 0u8 }) | (if bits[5] { 16u8 } else { 0u8 }) | (if bits[6] {
        32u8
    } else {
        0u8
    }) | (if bits[7] { 64u8 } else { 0u8 }) | (if bits[8] { 128u8 } else { 0u8 });
    RxOutcome::Byte(v)
}

/// The frames of a byte sequence, in wire order.
pub open spec fn frames_of(bytes: Seq<u8>) -> Seq<Seq<bool>> {
    Seq::new(bytes.len(), |i: int| frame_of(bytes[i]))
}

/// What the receive serializer program delivers for a run of sampled frames:
/// the byte of every valid frame, in order; invalid frames deliver nothing.
pub open spec fn decode_frames(frames: Seq<Seq<bool>>) -> Seq<u8>
    decreases frames.len(),
{
    if frames.len() == 0 {
        Seq::empty()
    } else if frame_valid(frames[0]) {
        seq![byte_of(frames[0])] + decode_frames(frames.skip(1))
    } else {
        decode_frames(frames.skip(1))
    }
}

/// Law: framing a byte and sampling the result recovers exactly that byte —
/// every byte's frame is valid, and the data bits assemble back to it.
pub proof fn lemma_frame_round_trip(b: u8)
    ensures
        frame_valid(frame_of(b)),
        byte_of(frame_of(b)) == b,
{
    assert(frame_of(b).len() == FRAME_BITS);
    assert(!frame_of(b)[0]);
    assert(frame_of(b)[9]);
    assert(forall|k: int| 1 <= k < 9 ==> frame_of(b)[k] == bit_of(b, (k - 1) as u8));
    assert((if (b >> 0u8) & 1u8 == 1u8 { 1u8 } else { 0u8 }) | (if (b >> 1u8) & 1u8 == 1u8 {
        2u8
    } else {
        0u8
    }) | (if (b >> 2u8) & 1u8 == 1u8 { 4u8 } else { 0u8 }) | (if (b >> 3u8) & 1u8 == 1u8 {
        8u8
    } else {
        0u8
    }) | (if (b >> 4u8) & 1u8 == 1u8 { 16u8 } else { 0u8 }) | (if (b >> 5u8) & 1u8 == 1u8 {
        32u8
    } else {
        0u8
    }) | (if (b >> 6u8) & 1u8 == 1u8 { 64u8 } else { 0u8 }) | (if (b >> 7u8) & 1u8 == 1u8 {
        128u8
    } else {
        0u8
    }) == b) by (bit_vector);
}

/// Law: a whole byte sequence survives the wire — sampling the frames of
/// `bytes` delivers exactly `bytes`, in order.
pub proof fn lemma_stream_round_trip(bytes: Seq<u8>)
    ensures
        decode_frames(frames_of(bytes)) == bytes,
    decreases bytes.len(),
{
    if bytes.len() == 0 {
        assert(frames_of(bytes) =~= Seq::<Seq<bool>>::empty());
        assert(decode_frames(frames_of(bytes)) =~= bytes);
    } else {
        lemma_frame_round_trip(bytes[0]);
        assert(frames_of(bytes).skip(1) =~= frames_of(bytes.skip(1)));
        lemma_stream_round_trip(bytes.skip(1));
        assert(seq![bytes[0]] + bytes.skip(1) =~= bytes);
    }
}

/// Law: a framing violation costs exactly the corrupted byte. Of two valid
/// frames with a corrupt frame between them, sampling delivers the two
/// framed bytes in order; nothing is substituted for the corrupt one and
/// nothing is duplicated.
pub proof fn lemma_corrupt_frame_dropped(b1: u8, bad: Seq<bool>, b2: u8)
    requires
        !frame_valid(bad),
    ensures
        decode_frames(seq![frame_of(b1), bad, frame_of(b2)]) == seq![b1, b2],
{
    let fs = seq![frame_of(b1), bad, frame_of(b2)];
    lemma_frame_round_trip(b1);
    lemma_frame_round_trip(b2);
    assert(fs.skip(1) =~= seq![bad, frame_of(b2)]);
    assert(seq![bad, frame_of(b2)].skip(1) =~= seq![frame_of(b2)]);
    assert(seq![frame_of(b2)].skip(1) =~= Seq::<Seq<bool>>::empty());
    assert(decode_frames(Seq::<Seq<bool>>::empty()) == Seq::<u8>::empty());
    assert(decode_frames(seq![frame_of(b2)]) =~= seq![b2]);
    assert(decode_frames(seq![bad, frame_of(b2)]) =~= seq![b2]);
    assert(decode_frames(fs) =~= seq![b1, b2]);
}

} // verus!
