//! Classical tier: parity bytes appended to the payload.
//!
//! A frame is the payload, then the marker `0x52`, then the redundancy
//! percentage, then the parity bytes. There are as many parity bytes as the
//! percentage of the payload's length, rounded down; payload byte `i` is folded
//! by exclusive or into parity byte `i` modulo that count.
//!
//! Decoding reads everything it needs from the frame. The trailer sits where a
//! marker is followed by a percentage that, applied to the length of the whole
//! frame, gives exactly the number of bytes behind it. Of several such places
//! the one nearest to the end of the frame counts. The parity bytes themselves
//! are neither checked nor used to repair anything.

use vstd::prelude::*;
use super::bits::{clamp, clamp_u8};
use crate::bytes::{append, copy_of, zeros};
use super::{seen, ErrorCorrection, ErrorCorrectionError, ErrorCorrectionType};

verus! {

/// The byte that stands between payload and redundancy percentage.
pub const CLASSICAL_MARKER: u8 = 0x52;

/// The redundancy of the classical tier where none is asked for, in per cent.
pub const DEFAULT_CLASSICAL_REDUNDANCY: u8 = 8;

/// `percent` per cent of `len`, rounded down.
pub open spec fn parity_len(len: nat, percent: u8) -> nat {
    len * (percent as nat) / 100
}

/// The exclusive or of the bytes of `payload` whose index is `slot` modulo `slots`.
pub open spec fn folded(payload: Seq<u8>, slots: int, slot: int) -> u8
    decreases payload.len(),
{
    if payload.len() == 0 {
        0
    } else {
        let before = folded(payload.drop_last(), slots, slot);
        if slots > 0 && (payload.len() - 1) % slots == slot {
            before ^ payload.last()
        } else {
            before
        }
    }
}

/// The `slots` parity bytes of `payload`.
pub open spec fn parity(payload: Seq<u8>, slots: nat) -> Seq<u8> {
    Seq::new(slots, |slot: int| folded(payload, slots as int, slot))
}

/// The frame that protects `payload` with `percent` per cent of parity.
pub open spec fn classical_frame(payload: Seq<u8>, percent: u8) -> Seq<u8> {
    payload + seq![CLASSICAL_MARKER, percent] + parity(payload, parity_len(payload.len(), percent))
}

/// Whether `frame` reads as payload, marker, percentage and `behind` parity
/// bytes: the marker stands `behind + 2` bytes before the end, and the
/// percentage after it, applied to the length of the frame, gives `behind`.
pub open spec fn trailer_at(frame: Seq<u8>, behind: int) -> bool {
    &&& 0 <= behind <= frame.len() - 2
    &&& frame[frame.len() - behind - 2] == CLASSICAL_MARKER
    &&& parity_len(frame.len(), frame[frame.len() - behind - 1]) == behind
}

/// Whether the trailer nearest to the end of `frame` has `behind` bytes after it.
pub open spec fn nearest_trailer(frame: Seq<u8>, behind: int) -> bool {
    &&& trailer_at(frame, behind)
    &&& forall|fewer: int| 0 <= fewer < behind ==> !#[trigger] trailer_at(frame, fewer)
}

/// Whether `frame` has a trailer anywhere.
pub open spec fn has_trailer(frame: Seq<u8>) -> bool {
    exists|behind: int| #[trigger] trailer_at(frame, behind)
}

/// What decoding `frame` yields: the bytes before its nearest trailer.
pub open spec fn classical_payload(frame: Seq<u8>) -> Result<Seq<u8>, ErrorCorrectionError> {
    if frame.len() < 3 || !has_trailer(frame) {
        Err(ErrorCorrectionError::InvalidData)
    } else {
        let behind = choose|behind: int| nearest_trailer(frame, behind);
        Ok(frame.take(frame.len() - behind - 2))
    }
}

/// Whether `frame` reads as damaged: its last two bytes are the marker and a
/// byte whose low four bits are not all zero. Every other frame reads as clean.
pub open spec fn classical_has_errors(frame: Seq<u8>) -> bool {
    &&& frame.len() >= 3
    &&& frame[frame.len() - 2] == CLASSICAL_MARKER
    &&& frame[frame.len() - 1] & 0x0F != 0
}

/// Codec of the classical tier.
#[derive(Clone, Copy, Debug)]
pub struct ClassicalErrorCorrection {
    redundancy: u8,
}

impl ClassicalErrorCorrection {
    #[verifier::type_invariant]
    spec fn in_range(self) -> bool {
        5 <= self.redundancy <= 30
    }

    /// The redundancy of this codec, in per cent of the payload's length.
    pub closed spec fn percent(self) -> u8 {
        self.redundancy
    }

    /// Whether the percentage lies between 5 and 30.
    pub open spec fn valid(self) -> bool {
        5 <= self.percent() <= 30
    }

    /// A codec with the given redundancy, brought into the range 5 to 30.
    pub fn new(redundancy: u8) -> (codec: Self)
        ensures
            codec.percent() == clamp_u8(redundancy, 5, 30),
            codec.valid(),
    {
        Self { redundancy: clamp(redundancy, 5, 30) }
    }
}

/// Computes `percent` per cent of `len`, rounded down.
fn scaled(len: usize, percent: u8) -> (part: u128)
    ensures
        part == parity_len(len as nat, percent),
        percent <= 100 ==> part <= len,
{
    assert(len * percent <= 0xffff_ffff_ffff_ffff * 255) by (nonlinear_arith)
        requires
            0 <= len <= 0xffff_ffff_ffff_ffff,
            0 <= percent <= 255,
    ;
    assert(percent <= 100 ==> len * percent / 100 <= len) by (nonlinear_arith)
        requires
            0 <= len,
            0 <= percent,
    ;
    (len as u128) * (percent as u128) / 100
}

/// Decodes a classical frame.
fn decode_classical_frame(data: &[u8]) -> (result: Result<Vec<u8>, ErrorCorrectionError>)
    ensures
        seen(result) == classical_payload(data@),
{
    let len = data.len();
    if len < 3 {
        return Err(ErrorCorrectionError::InvalidData);
    }
    let mut behind: usize = 0;
    while behind <= len - 2
        invariant
            len == data@.len(),
            len >= 3,
            behind <= len - 1,
            forall|fewer: int| 0 <= fewer < behind ==> !#[trigger] trailer_at(data@, fewer),
        decreases len - behind,
    {
        let at = len - behind - 2;
        if data[at] == CLASSICAL_MARKER && scaled(len, data[at + 1]) == behind as u128 {
            let decoded = copy_of(data, at);
            proof {
                assert(nearest_trailer(data@, behind as int));
                lemma_nearest_trailer_unique(
                    data@,
                    behind as int,
                    choose|behind: int| nearest_trailer(data@, behind),
                );
            }
            return Ok(decoded);
        }
        behind += 1;
    }
    assert(!has_trailer(data@)) by {
        if has_trailer(data@) {
            let found = choose|behind: int| #[trigger] trailer_at(data@, behind);
            assert(!trailer_at(data@, found));
        }
    }
    Err(ErrorCorrectionError::InvalidData)
}

/// A frame has at most one nearest trailer.
pub proof fn lemma_nearest_trailer_unique(frame: Seq<u8>, first: int, second: int)
    requires
        nearest_trailer(frame, first),
        nearest_trailer(frame, second),
    ensures
        first == second,
{
    if first < second {
        assert(!trailer_at(frame, first));
    } else if second < first {
        assert(!trailer_at(frame, second));
    }
}

/// Checks a classical frame for damage.
fn check_classical_frame(data: &[u8]) -> (damaged: bool)
    ensures
        damaged == classical_has_errors(data@),
{
    let len = data.len();
    if len < 3 || data[len - 2] != CLASSICAL_MARKER {
        return false;
    }
    data[len - 1] & 0x0F != 0
}

impl ErrorCorrection for ClassicalErrorCorrection {
    open spec fn frame_of(&self, payload: Seq<u8>) -> Seq<u8> {
        classical_frame(payload, self.percent())
    }

    open spec fn payload_of(&self, frame: Seq<u8>) -> Result<Seq<u8>, ErrorCorrectionError> {
        classical_payload(frame)
    }

    open spec fn reads_damaged(&self, frame: Seq<u8>) -> bool {
        classical_has_errors(frame)
    }

    open spec fn tier(&self) -> ErrorCorrectionType {
        ErrorCorrectionType::Classical
    }

    fn encode(&self, data: &[u8]) -> (result: Result<Vec<u8>, ErrorCorrectionError>) {
        proof {
            use_type_invariant(self);
        }
        let len = data.len();
        if len == 0 {
            return Err(ErrorCorrectionError::InvalidData);
        }
        let slots = scaled(len, self.redundancy) as usize;
        let mut encoded: Vec<u8> = Vec::new();
        append(&mut encoded, data);
        let mut folds = zeros(slots);
        if slots > 0 {
            let mut i: usize = 0;
            while i < len
                invariant
                    len == data@.len(),
                    i <= len,
                    slots > 0,
                    folds@.len() == slots,
                    forall|slot: int|
                        0 <= slot < slots ==> #[trigger] folds@[slot] == folded(
                            data@.take(i as int),
                            slots as int,
                            slot,
                        ),
                decreases len - i,
            {
                let ghost before = folds@;
                let slot = i % slots;
                let mixed = folds[slot] ^ data[i];
                folds.set(slot, mixed);
                proof {
                    let next = data@.take(i + 1);
                    assert(next.drop_last() =~= data@.take(i as int));
                    assert(next.last() == data@[i as int]);
                    assert forall|other: int| 0 <= other < slots implies #[trigger] folds@[other]
                        == folded(next, slots as int, other) by {
                        assert(before[other] == folded(data@.take(i as int), slots as int, other));
                    }
                }
                i += 1;
            }
            assert(data@.take(len as int) =~= data@);
        }
        encoded.push(CLASSICAL_MARKER);
        encoded.push(self.redundancy);
        append(&mut encoded, folds.as_slice());
        assert(encoded@ =~= classical_frame(data@, self.percent()));
        Ok(encoded)
    }

    fn decode(&self, data: &[u8]) -> (result: Result<Vec<u8>, ErrorCorrectionError>) {
        decode_classical_frame(data)
    }

    fn has_errors(&self, data: &[u8]) -> (damaged: bool) {
        check_classical_frame(data)
    }

    fn correction_type(&self) -> (tier: ErrorCorrectionType) {
        ErrorCorrectionType::Classical
    }
}

} // verus!
