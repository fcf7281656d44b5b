//! The byte-pair convention of the SPI link.
//!
//! The module moves data in two-byte transfers and expects the two bytes of
//! each transfer in swapped order: the second logical byte travels first. A
//! command of odd length is completed with a filler byte; a reply of odd
//! length arrives with a marker in place of the missing byte, which is not
//! part of the reply.

use vstd::prelude::*;

verus! {

/// Pads an odd-length transfer and stands in for data while polling.
pub const FILLER: u8 = 0x0A;

/// Sent by the module where it has no byte to give.
pub const NAK: u8 = 0x15;

/// The two bytes of one SPI transfer, in the order they occupy the transfer
/// buffer: `lead` is the first byte on the wire and the second logical byte,
/// `trail` is the second byte on the wire and the first logical byte.
#[derive(Clone, Copy, Debug, PartialEq, Eq, Structural)]
pub struct Frame {
    pub lead: u8,
    pub trail: u8,
}

/// How many transfers carry `len` logical bytes.
pub open spec fn frame_count(len: nat) -> nat {
    (len + 1) / 2
}

/// The `i`-th transfer of the logical bytes `bytes`.
pub open spec fn frame_of(bytes: Seq<u8>, i: int) -> Frame {
    Frame {
        lead: if 2 * i + 1 < bytes.len() {
            bytes[2 * i + 1]
        } else {
            FILLER
        },
        trail: bytes[2 * i],
    }
}

/// All transfers that carry `bytes`, in order.
pub open spec fn frames_of(bytes: Seq<u8>) -> Seq<Frame> {
    Seq::new(frame_count(bytes.len()), |i: int| frame_of(bytes, i))
}

/// The logical bytes that one received transfer contributes.
pub open spec fn bytes_of_frame(frame: Frame) -> Seq<u8> {
    if frame.lead == NAK {
        seq![frame.trail]
    } else {
        seq![frame.trail, frame.lead]
    }
}

/// The logical bytes that a run of received transfers contributes.
pub open spec fn bytes_of(frames: Seq<Frame>) -> Seq<u8>
    decreases frames.len(),
{
    if frames.len() == 0 {
        Seq::empty()
    } else {
        bytes_of(frames.drop_last()) + bytes_of_frame(frames.last())
    }
}

/// No byte in the second place of a pair is the marker that a receiver drops.
pub open spec fn survives_framing(bytes: Seq<u8>) -> bool {
    forall|i: int| 0 <= i < bytes.len() && i % 2 == 1 ==> bytes[i] != NAK
}

/// The number of transfers needed for `len` logical bytes.
pub fn transfers_for(len: usize) -> (n: usize)
    ensures
        n == frame_count(len as nat),
{
    len / 2 + len % 2
}

/// The `i`-th transfer of `bytes`.
pub fn frame_at(bytes: &[u8], i: usize) -> (frame: Frame)
    requires
        i < frame_count(bytes@.len()),
    ensures
        frame == frame_of(bytes@, i as int),
{
    let len: usize = bytes.len();
    assert(2 * i < len);
    let first: usize = 2 * i;
    let trail: u8 = bytes[first];
    let lead: u8 = if first + 1 < len {
        bytes[first + 1]
    } else {
        FILLER
    };
    Frame { lead, trail }
}

/// Lays logical bytes out as transfers: each pair swapped, an odd tail padded.
pub fn encode(bytes: &[u8]) -> (frames: Vec<Frame>)
    ensures
        frames@ == frames_of(bytes@),
{
    let count: usize = transfers_for(bytes.len());
    let mut frames: Vec<Frame> = Vec::new();
    let mut i: usize = 0;
    while i < count
        invariant
            count == frame_count(bytes@.len()),
            i <= count,
            frames@.len() == i,
            forall|k: int| 0 <= k < i ==> frames@[k] == frame_of(bytes@, k),
        decreases count - i,
    {
        let frame = frame_at(bytes, i);
        frames.push(frame);
        i += 1;
    }
    assert(frames@ =~= frames_of(bytes@));
    frames
}

/// Recovers the logical bytes from received transfers, dropping each marker
/// that stands in the second logical place.
pub fn decode(frames: &[Frame]) -> (bytes: Vec<u8>)
    ensures
        bytes@ == bytes_of(frames@),
{
    let mut bytes: Vec<u8> = Vec::new();
    let mut i: usize = 0;
    while i < frames.len()
        invariant
            i <= frames@.len(),
            bytes@ == bytes_of(frames@.take(i as int)),
        decreases frames@.len() - i,
    {
        let frame = frames[i];
        proof {
            let next = frames@.take(i + 1);
            assert(next.drop_last() =~= frames@.take(i as int));
            assert(next.last() == frame);
        }
        bytes.push(frame.trail);
        if frame.lead != NAK {
            bytes.push(frame.lead);
        }
        i += 1;
    }
    assert(frames@.take(frames@.len() as int) =~= frames@);
    bytes
}

/// Three logical bytes `[a, b, c]` travel as the transfers `(b, a)` and
/// `(FILLER, c)`.
pub proof fn lemma_three_bytes_on_the_wire(a: u8, b: u8, c: u8)
    ensures
        frames_of(seq![a, b, c]) == seq![
            Frame { lead: b, trail: a },
            Frame { lead: FILLER, trail: c },
        ],
{
    assert(frames_of(seq![a, b, c]) =~= seq![
        Frame { lead: b, trail: a },
        Frame { lead: FILLER, trail: c },
    ]);
}

/// A reply `[x, y, z]` that arrives as the pair `x, y` and the pair `z, NAK`
/// is read back as `[x, y, z]`: the trailing marker is dropped.
pub proof fn lemma_three_bytes_off_the_wire(x: u8, y: u8, z: u8)
    requires
        y != NAK,
    ensures
        bytes_of(seq![Frame { lead: y, trail: x }, Frame { lead: NAK, trail: z }]) == seq![x, y, z],
{
    let frames = seq![Frame { lead: y, trail: x }, Frame { lead: NAK, trail: z }];
    let head = frames.drop_last();
    assert(head =~= seq![Frame { lead: y, trail: x }]);
    assert(head.drop_last() =~= Seq::<Frame>::empty());
    reveal_with_fuel(bytes_of, 3);
    assert(bytes_of(head) =~= seq![x, y]);
    assert(bytes_of(frames) =~= seq![x, y, z]);
}

/// What a receiver reads back from the transfers of `bytes`: the bytes
/// themselves, followed by the filler where the length was odd.
pub proof fn lemma_framing_round_trip(bytes: Seq<u8>)
    requires
        survives_framing(bytes),
    ensures
        bytes_of(frames_of(bytes)) == if bytes.len() % 2 == 0 {
            bytes
        } else {
            bytes.push(FILLER)
        },
    decreases bytes.len(),
{
    let frames = frames_of(bytes);
    if bytes.len() == 0 {
        assert(bytes_of(frames) =~= bytes);
    } else if bytes.len() % 2 == 1 {
        let rest = bytes.drop_last();
        assert(survives_framing(rest));
        lemma_framing_round_trip(rest);
        assert(frames.drop_last() =~= frames_of(rest));
        assert(frames.last() == Frame { lead: FILLER, trail: bytes.last() });
        assert(bytes_of(frames) =~= bytes.push(FILLER));
    } else {
        let rest = bytes.take(bytes.len() - 2);
        assert(survives_framing(rest));
        lemma_framing_round_trip(rest);
        assert(frames.drop_last() =~= frames_of(rest));
        let last = bytes.len() - 1;
        assert(frames.last() == Frame { lead: bytes[last], trail: bytes[last - 1] });
        assert(bytes[last] != NAK);
        assert(bytes_of(frames) =~= bytes);
    }
}

} // verus!
