//! What holds of the classical tier: when a fresh frame decodes to its payload,
//! and when it reads as clean.
//!
//! Neither holds of every payload. The parity length is taken from the
//! payload's length when a frame is written and from the frame's length when it
//! is read, and the two can differ; and the damage check looks at the last two
//! bytes of the frame, whatever they are.

use vstd::prelude::*;
use super::classical::{
    classical_frame, classical_has_errors, classical_payload, lemma_nearest_trailer_unique,
    nearest_trailer, parity, parity_len, trailer_at, ClassicalErrorCorrection, CLASSICAL_MARKER,
};
use super::{ErrorCorrection, ErrorCorrectionError};

verus! {

/// The layout of a frame: payload, marker, percentage, parity bytes.
pub proof fn lemma_classical_frame_shape(payload: Seq<u8>, percent: u8)
    ensures
        classical_frame(payload, percent).len() == payload.len() + 2 + parity_len(
            payload.len(),
            percent,
        ),
        classical_frame(payload, percent).take(payload.len() as int) == payload,
        classical_frame(payload, percent)[payload.len() as int] == CLASSICAL_MARKER,
        classical_frame(payload, percent)[payload.len() as int + 1] == percent,
        forall|slot: int|
            0 <= slot < parity_len(payload.len(), percent) ==> classical_frame(
                payload,
                percent,
            )[payload.len() as int + 2 + slot] == #[trigger] parity(
                payload,
                parity_len(payload.len(), percent),
            )[slot],
{
}

/// A frame with a trailer has a nearest trailer.
pub proof fn lemma_nearest_trailer_exists(frame: Seq<u8>, behind: int)
    requires
        trailer_at(frame, behind),
    ensures
        exists|nearest: int| nearest_trailer(frame, nearest),
    decreases behind,
{
    if exists|fewer: int| 0 <= fewer < behind && #[trigger] trailer_at(frame, fewer) {
        let fewer = choose|fewer: int| 0 <= fewer < behind && #[trigger] trailer_at(frame, fewer);
        lemma_nearest_trailer_exists(frame, fewer);
    } else {
        assert(nearest_trailer(frame, behind));
    }
}

/// **Round trip**, as far as it holds. Decoding the frame of a payload that is
/// not empty gives the payload back if and only if the trailer that encoding
/// wrote is the nearest trailer of the frame: the percentage, applied to the
/// length of the frame, gives as many parity bytes as were written, and no
/// bytes nearer to the end read as a trailer.
pub proof fn lemma_classical_round_trip(payload: Seq<u8>, percent: u8)
    requires
        payload.len() > 0,
    ensures
        classical_payload(classical_frame(payload, percent)) == Ok::<
            Seq<u8>,
            ErrorCorrectionError,
        >(payload) <==> nearest_trailer(
            classical_frame(payload, percent),
            parity_len(payload.len(), percent) as int,
        ),
{
    let frame = classical_frame(payload, percent);
    let written = parity_len(payload.len(), percent) as int;
    lemma_classical_frame_shape(payload, percent);
    if nearest_trailer(frame, written) {
        let chosen = choose|behind: int| nearest_trailer(frame, behind);
        lemma_nearest_trailer_unique(frame, written, chosen);
    }
    if classical_payload(frame) == Ok::<Seq<u8>, ErrorCorrectionError>(payload) {
        let some = choose|behind: int| #[trigger] trailer_at(frame, behind);
        lemma_nearest_trailer_exists(frame, some);
    }
}

/// Round trip of short payloads: where the percentage of the payload's length
/// plus two is less than one, the frame has no parity bytes and decodes to the
/// payload.
pub proof fn lemma_classical_round_trip_without_parity(payload: Seq<u8>, percent: u8)
    requires
        payload.len() > 0,
        (payload.len() + 2) * percent < 100,
    ensures
        classical_payload(classical_frame(payload, percent)) == Ok::<
            Seq<u8>,
            ErrorCorrectionError,
        >(payload),
{
    lemma_classical_frame_shape(payload, percent);
    assert(payload.len() * percent <= (payload.len() + 2) * percent) by (nonlinear_arith);
    lemma_classical_round_trip(payload, percent);
}

/// Round trip where the two parity lengths agree: if the percentage gives the
/// same number of bytes for the frame as for the payload, the percentage is
/// not the marker, and no parity byte is the marker, the frame decodes to the
/// payload.
pub proof fn lemma_classical_round_trip_without_marker_in_parity(payload: Seq<u8>, percent: u8)
    requires
        payload.len() > 0,
        parity_len(
            payload.len() + 2 + parity_len(payload.len(), percent),
            percent,
        ) == parity_len(payload.len(), percent),
        percent != CLASSICAL_MARKER,
        forall|slot: int|
            0 <= slot < parity_len(payload.len(), percent) ==> #[trigger] parity(
                payload,
                parity_len(payload.len(), percent),
            )[slot] != CLASSICAL_MARKER,
    ensures
        classical_payload(classical_frame(payload, percent)) == Ok::<
            Seq<u8>,
            ErrorCorrectionError,
        >(payload),
{
    lemma_classical_frame_shape(payload, percent);
    lemma_classical_round_trip(payload, percent);
}

/// **Freshness**, as far as it holds. The frame of a payload that is not empty
/// reads as damaged in exactly two cases: it has no parity bytes and the low
/// four bits of the percentage are not all zero; or it has two parity bytes or
/// more, the last but one is the marker, and the low four bits of the last are
/// not all zero.
pub proof fn lemma_classical_freshness(payload: Seq<u8>, percent: u8)
    requires
        payload.len() > 0,
        5 <= percent <= 30,
    ensures
        classical_has_errors(classical_frame(payload, percent)) <==> {
            let slots = parity_len(payload.len(), percent);
            let folds = parity(payload, slots);
            ||| slots == 0 && percent & 0x0F != 0
            ||| slots >= 2 && folds[slots - 2] == CLASSICAL_MARKER && folds[slots - 1] & 0x0F != 0
        },
{
    lemma_classical_frame_shape(payload, percent);
}

/// **Determinism.** Codecs with the same percentage frame a payload alike.
pub proof fn lemma_classical_frames_alike(
    first: ClassicalErrorCorrection,
    second: ClassicalErrorCorrection,
    payload: Seq<u8>,
)
    requires
        first.percent() == second.percent(),
    ensures
        first.frame_of(payload) == second.frame_of(payload),
{
}

/// What a frame decodes to, and whether it reads as damaged, is decided by the
/// frame alone, not by the codec that is asked.
pub proof fn lemma_classical_frame_speaks_for_itself(
    first: ClassicalErrorCorrection,
    second: ClassicalErrorCorrection,
    frame: Seq<u8>,
)
    ensures
        first.payload_of(frame) == second.payload_of(frame),
        first.reads_damaged(frame) == second.reads_damaged(frame),
{
}

} // verus!
