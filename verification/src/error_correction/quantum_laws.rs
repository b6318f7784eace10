//! What holds of the quantum tier: when a fresh frame decodes to its payload,
//! and when it reads as clean.
//!
//! Neither holds of every payload. A frame is written as the whole payload
//! followed by all syndromes, and read as blocks of eight data bytes each
//! followed by its syndromes. The two layouts agree only for a payload of one
//! whole chunk, and even there the syndromes of a chunk, being rotations of
//! one another, seldom agree.

use vstd::prelude::*;
use super::bits::rotl8;
use super::quantum::{
    bit_flagged, bit_votes, block_data, block_syndromes, chunk_count, chunk_of, chunk_syndromes,
    corrected_byte, decoded_block, decoded_byte, flip_flagged, quantum_block_count,
    quantum_block_size, quantum_frame, quantum_has_errors, quantum_payload, quantum_well_formed,
    syndrome, syndromes, syndromes_disagree, QuantumErrorCorrection, QUANTUM_HEADER,
    QUANTUM_TRAILER,
};
use super::{ErrorCorrection, ErrorCorrectionError};

verus! {

/// There are `rounds` syndromes for every chunk.
pub proof fn lemma_syndromes_len(payload: Seq<u8>, rounds: nat, chunks: nat)
    ensures
        syndromes(payload, rounds, chunks).len() == chunks * rounds,
    decreases chunks,
{
    if chunks > 0 {
        lemma_syndromes_len(payload, rounds, (chunks - 1) as nat);
        assert((chunks - 1) * rounds + rounds == chunks * rounds) by (nonlinear_arith);
    } else {
        assert(0 * rounds == 0) by (nonlinear_arith);
    }
}

/// The layout of a frame: header, distance, rounds, payload, syndromes, trailer.
pub proof fn lemma_quantum_frame_shape(payload: Seq<u8>, distance: u8, rounds: u8)
    ensures
        quantum_frame(payload, distance, rounds).len() == 4 + payload.len() + chunk_count(
            payload.len(),
        ) * rounds,
        quantum_frame(payload, distance, rounds)[0] == QUANTUM_HEADER,
        quantum_frame(payload, distance, rounds)[1] == distance,
        quantum_frame(payload, distance, rounds)[2] == rounds,
        quantum_frame(payload, distance, rounds)[quantum_frame(payload, distance, rounds).len()
            - 1] == QUANTUM_TRAILER,
        quantum_frame(payload, distance, rounds).subrange(3, 3 + payload.len() as int) == payload,
        quantum_frame(payload, distance, rounds).subrange(
            3 + payload.len() as int,
            quantum_frame(payload, distance, rounds).len() - 1,
        ) == syndromes(payload, rounds as nat, chunk_count(payload.len())),
        payload.len() > 0 && distance >= 3 && rounds >= 1 ==> quantum_well_formed(
            quantum_frame(payload, distance, rounds),
        ),
{
    let frame = quantum_frame(payload, distance, rounds);
    let all = syndromes(payload, rounds as nat, chunk_count(payload.len()));
    lemma_syndromes_len(payload, rounds as nat, chunk_count(payload.len()));
    assert(frame.subrange(3, 3 + payload.len() as int) =~= payload);
    assert(frame.subrange(3 + payload.len() as int, frame.len() - 1) =~= all);
    assert(chunk_count(payload.len()) * rounds >= 0) by (nonlinear_arith);
}

/// How many blocks the frame of a payload of whole chunks is read as: as many
/// as the payload has chunks.
pub proof fn lemma_whole_chunks_block_count(payload: Seq<u8>, distance: u8, rounds: u8)
    requires
        payload.len() % 8 == 0,
    ensures
        8 * quantum_block_count(quantum_frame(payload, distance, rounds)) == payload.len(),
{
    let frame = quantum_frame(payload, distance, rounds);
    let chunks = (payload.len() / 8) as int;
    lemma_quantum_frame_shape(payload, distance, rounds);
    assert(chunk_count(payload.len()) == chunks);
    let size = 8 + rounds as int;
    assert(payload.len() + chunks * rounds == chunks * size) by (nonlinear_arith)
        requires
            payload.len() == 8 * chunks,
            size == 8 + rounds,
    ;
    assert((chunks * size) / size == chunks) by (nonlinear_arith)
        requires
            size > 0,
    ;
}

/// **Round trip**, as far as it holds. Decoding the frame of a payload that is
/// not empty gives the payload back if and only if the payload consists of
/// whole chunks and every byte, read at its place in the block layout and
/// corrected where the syndromes of its block disagree, is the byte of the
/// payload.
pub proof fn lemma_quantum_round_trip(payload: Seq<u8>, distance: u8, rounds: u8)
    requires
        payload.len() > 0,
        distance >= 3,
        rounds >= 1,
    ensures
        quantum_payload(quantum_frame(payload, distance, rounds)) == Ok::<
            Seq<u8>,
            ErrorCorrectionError,
        >(payload) <==> {
            &&& payload.len() % 8 == 0
            &&& forall|at: int|
                0 <= at < payload.len() ==> #[trigger] decoded_byte(
                    quantum_frame(payload, distance, rounds),
                    at,
                ) == payload[at]
        },
{
    let frame = quantum_frame(payload, distance, rounds);
    lemma_quantum_frame_shape(payload, distance, rounds);
    let decoded = quantum_payload(frame)->Ok_0;
    if payload.len() % 8 == 0 {
        lemma_whole_chunks_block_count(payload, distance, rounds);
        if forall|at: int|
            0 <= at < payload.len() ==> #[trigger] decoded_byte(frame, at) == payload[at] {
            assert(decoded =~= payload);
        }
        if decoded == payload {
            assert forall|at: int| 0 <= at < payload.len() implies #[trigger] decoded_byte(
                frame,
                at,
            ) == payload[at] by {
                assert(decoded[at] == decoded_byte(frame, at));
            }
        }
    } else {
        assert(decoded.len() != payload.len());
    }
}

/// A payload that does not consist of whole chunks never comes back: what its
/// frame decodes to has another length.
pub proof fn lemma_quantum_ragged_payload_is_not_recovered(
    payload: Seq<u8>,
    distance: u8,
    rounds: u8,
)
    requires
        payload.len() % 8 != 0,
        distance >= 3,
        rounds >= 1,
    ensures
        quantum_payload(quantum_frame(payload, distance, rounds)) is Ok,
        quantum_payload(quantum_frame(payload, distance, rounds))->Ok_0.len() % 8 == 0,
        quantum_payload(quantum_frame(payload, distance, rounds)) != Ok::<
            Seq<u8>,
            ErrorCorrectionError,
        >(payload),
{
    lemma_quantum_frame_shape(payload, distance, rounds);
    let decoded = quantum_payload(quantum_frame(payload, distance, rounds))->Ok_0;
    assert(decoded.len() == 8 * quantum_block_count(quantum_frame(payload, distance, rounds)));
}

/// The frame of a payload shorter than one chunk holds no whole block: it
/// decodes to nothing and reads as clean.
pub proof fn lemma_quantum_short_payload(payload: Seq<u8>, distance: u8, rounds: u8)
    requires
        0 < payload.len() < 8,
        distance >= 3,
        rounds >= 1,
    ensures
        quantum_payload(quantum_frame(payload, distance, rounds)) == Ok::<
            Seq<u8>,
            ErrorCorrectionError,
        >(Seq::empty()),
        !quantum_has_errors(quantum_frame(payload, distance, rounds)),
{
    let frame = quantum_frame(payload, distance, rounds);
    lemma_quantum_frame_shape(payload, distance, rounds);
    assert(chunk_count(payload.len()) == 1);
    assert(1 * rounds == rounds) by (nonlinear_arith);
    let body = payload.len() + rounds;
    let size = 8 + rounds;
    assert(body / size == 0) by (nonlinear_arith)
        requires
            0 <= body < size,
    ;
    assert(quantum_block_count(frame) == 0);
    assert(quantum_payload(frame)->Ok_0 =~= Seq::<u8>::empty());
}

/// The frame of a payload of exactly one chunk is read as one block: the
/// payload as data, the syndromes of the payload as syndromes.
pub proof fn lemma_quantum_one_chunk_layout(payload: Seq<u8>, distance: u8, rounds: u8)
    requires
        payload.len() == 8,
        distance >= 3,
        rounds >= 1,
    ensures
        quantum_block_count(quantum_frame(payload, distance, rounds)) == 1,
        block_data(quantum_frame(payload, distance, rounds), 0) == payload,
        block_syndromes(quantum_frame(payload, distance, rounds), 0) == chunk_syndromes(
            payload,
            rounds as nat,
        ),
{
    let frame = quantum_frame(payload, distance, rounds);
    lemma_quantum_frame_shape(payload, distance, rounds);
    lemma_whole_chunks_block_count(payload, distance, rounds);
    assert(chunk_count(payload.len()) == 1);
    assert(1 * rounds == rounds) by (nonlinear_arith);
    assert(0 * quantum_block_size(frame) == 0) by (nonlinear_arith);
    assert(chunk_of(payload, 0) =~= payload);
    let all = syndromes(payload, rounds as nat, 1);
    assert(syndromes(payload, rounds as nat, 0) =~= Seq::<u8>::empty());
    assert(all =~= chunk_syndromes(payload, rounds as nat));
    assert(block_data(frame, 0) =~= frame.subrange(3, 3 + payload.len() as int));
    assert(block_syndromes(frame, 0) =~= frame.subrange(3 + payload.len() as int, frame.len() - 1));
}

/// **Round trip and freshness of one chunk.** The frame of a payload of exactly
/// eight bytes decodes to that chunk, corrected by its own syndromes where
/// they disagree, and reads as damaged exactly where they disagree. So the
/// payload comes back if and only if the correction leaves it as it is.
pub proof fn lemma_quantum_one_chunk(payload: Seq<u8>, distance: u8, rounds: u8)
    requires
        payload.len() == 8,
        distance >= 3,
        rounds >= 1,
    ensures
        quantum_payload(quantum_frame(payload, distance, rounds)) == Ok::<
            Seq<u8>,
            ErrorCorrectionError,
        >(decoded_block(payload, chunk_syndromes(payload, rounds as nat))),
        quantum_has_errors(quantum_frame(payload, distance, rounds)) == syndromes_disagree(
            chunk_syndromes(payload, rounds as nat),
        ),
{
    let frame = quantum_frame(payload, distance, rounds);
    let found = chunk_syndromes(payload, rounds as nat);
    lemma_quantum_frame_shape(payload, distance, rounds);
    lemma_quantum_one_chunk_layout(payload, distance, rounds);
    let decoded = quantum_payload(frame)->Ok_0;
    assert(decoded.len() == 8);
    assert(decoded_block(payload, found).len() == 8);
    assert forall|at: int| 0 <= at < 8 implies decoded[at] == decoded_block(payload, found)[at] by {
        assert(decoded[at] == decoded_byte(frame, at));
    }
    assert(decoded =~= decoded_block(payload, found));
    if quantum_has_errors(frame) {
        let index = choose|index: int|
            0 <= index < quantum_block_count(frame) && syndromes_disagree(
                #[trigger] block_syndromes(frame, index),
            );
        assert(index == 0);
    }
    if syndromes_disagree(found) {
        assert(syndromes_disagree(block_syndromes(frame, 0)));
    }
}

/// No syndrome has a bit beyond the seventh: such a bit gets no votes.
pub proof fn lemma_no_votes_beyond_the_byte(found: Seq<u8>, bit: int, upto: int)
    requires
        bit >= 8,
    ensures
        bit_votes(found, bit, upto) == 0,
    decreases upto,
{
    if upto > 0 {
        lemma_no_votes_beyond_the_byte(found, bit, upto - 1);
    }
}

/// Where the syndromes flag bit 0 and no other bit, correction flips the
/// lowest bit of the first byte of the block and leaves the other bytes alone.
pub proof fn lemma_lone_low_bit_flips_first_byte_only(byte: u8, found: Seq<u8>, offset: int)
    requires
        0 <= offset < 8,
        bit_flagged(found, 0),
        forall|bit: int| 1 <= bit < 8 ==> !bit_flagged(found, bit),
    ensures
        corrected_byte(byte, found, offset) == if offset == 0 {
            byte ^ 1
        } else {
            byte
        },
{
    assert forall|bit: int| 1 <= bit implies !bit_flagged(found, bit) by {
        if bit >= 8 {
            lemma_no_votes_beyond_the_byte(found, bit, found.len() as int);
        }
    }
    lemma_unflagged_bits_stay(byte, found, offset, 8);
}

/// Correction changes a byte only in bits that are flagged: where bit 0 is
/// the only flagged bit, it changes at most the lowest bit of the first byte.
proof fn lemma_unflagged_bits_stay(byte: u8, found: Seq<u8>, offset: int, bits: int)
    requires
        0 <= offset,
        0 <= bits <= 8,
        bit_flagged(found, 0),
        forall|bit: int| 1 <= bit ==> !bit_flagged(found, bit),
    ensures
        flip_flagged(byte, found, offset, bits) == if offset == 0 && bits >= 1 {
            byte ^ 1
        } else {
            byte
        },
    decreases bits,
{
    if bits > 0 {
        lemma_unflagged_bits_stay(byte, found, offset, bits - 1);
        if offset == 0 && bits == 1 {
            assert(byte ^ (1u8 << 0u8) == byte ^ 1) by (bit_vector);
        } else {
            assert(!bit_flagged(found, bits - 1 + offset));
        }
    }
}

/// **Flip correction**, as far as it holds. Take a block whose syndromes
/// disagree and flag bit 0 and no other bit. If the lowest bit of its first
/// data byte is flipped and the syndromes are left alone, decoding the block
/// flips that bit back and hands out the data as it was.
pub proof fn lemma_flipped_lowest_bit_is_restored(data: Seq<u8>, found: Seq<u8>)
    requires
        data.len() == 8,
        syndromes_disagree(found),
        bit_flagged(found, 0),
        forall|bit: int| 1 <= bit < 8 ==> !bit_flagged(found, bit),
    ensures
        decoded_block(data.update(0, data[0] ^ 1), found) == data,
{
    let damaged = data.update(0, data[0] ^ 1);
    let decoded = decoded_block(damaged, found);
    assert forall|offset: int| 0 <= offset < 8 implies decoded[offset] == data[offset] by {
        lemma_lone_low_bit_flips_first_byte_only(damaged[offset], found, offset);
        if offset == 0 {
            let byte = data[0];
            assert((byte ^ 1) ^ 1 == byte) by (bit_vector);
        }
    }
    assert(decoded =~= data);
}

/// **Flip correction** in a frame. Take a payload of one chunk whose
/// syndromes disagree and flag bit 0 and no other bit. If the lowest bit of
/// the first payload byte is flipped in its frame, the syndromes left as they
/// were computed, the frame decodes to the payload.
pub proof fn lemma_quantum_restores_flipped_lowest_bit(
    payload: Seq<u8>,
    distance: u8,
    rounds: u8,
)
    requires
        payload.len() == 8,
        distance >= 3,
        rounds >= 1,
        syndromes_disagree(chunk_syndromes(payload, rounds as nat)),
        bit_flagged(chunk_syndromes(payload, rounds as nat), 0),
        forall|bit: int|
            1 <= bit < 8 ==> !bit_flagged(chunk_syndromes(payload, rounds as nat), bit),
    ensures
        quantum_payload(
            quantum_frame(payload, distance, rounds).update(3, payload[0] ^ 1),
        ) == Ok::<Seq<u8>, ErrorCorrectionError>(payload),
{
    let fresh = quantum_frame(payload, distance, rounds);
    let frame = fresh.update(3, payload[0] ^ 1);
    let found = chunk_syndromes(payload, rounds as nat);
    lemma_damaged_one_chunk_layout(payload, distance, rounds, payload[0] ^ 1);
    lemma_flipped_lowest_bit_is_restored(payload, found);
    let decoded = quantum_payload(frame)->Ok_0;
    assert forall|at: int| 0 <= at < 8 implies decoded[at] == payload[at] by {
        assert(decoded[at] == decoded_byte(frame, at));
    }
    assert(decoded =~= payload);
}

/// The frame of a payload of one chunk, its first data byte overwritten, is
/// still read as one block with the syndromes of the payload.
proof fn lemma_damaged_one_chunk_layout(payload: Seq<u8>, distance: u8, rounds: u8, byte: u8)
    requires
        payload.len() == 8,
        distance >= 3,
        rounds >= 1,
    ensures
        quantum_well_formed(quantum_frame(payload, distance, rounds).update(3, byte)),
        quantum_block_count(quantum_frame(payload, distance, rounds).update(3, byte)) == 1,
        block_data(quantum_frame(payload, distance, rounds).update(3, byte), 0)
            == payload.update(0, byte),
        block_syndromes(quantum_frame(payload, distance, rounds).update(3, byte), 0)
            == chunk_syndromes(payload, rounds as nat),
{
    let fresh = quantum_frame(payload, distance, rounds);
    let frame = fresh.update(3, byte);
    lemma_quantum_frame_shape(payload, distance, rounds);
    lemma_quantum_one_chunk_layout(payload, distance, rounds);
    assert(0 * quantum_block_size(fresh) == 0) by (nonlinear_arith);
    assert(quantum_block_size(frame) == quantum_block_size(fresh));
    assert(quantum_block_count(frame) == quantum_block_count(fresh));
    assert(block_data(frame, 0) =~= block_data(fresh, 0).update(0, byte));
    assert(block_syndromes(frame, 0) =~= block_syndromes(fresh, 0));
}

/// Rotating left distributes over exclusive or, and two rotations make one.
pub proof fn lemma_rotation_laws(first: u8, second: u8, by: nat, then_by: nat)
    ensures
        rotl8(first ^ second, by) == rotl8(first, by) ^ rotl8(second, by),
        rotl8(rotl8(first, by), then_by) == rotl8(first, by + then_by),
        rotl8(0, by) == 0,
{
    let a = (by % 8) as u8;
    let b = (then_by % 8) as u8;
    let c = ((by + then_by) % 8) as u8;
    let na = (8 - a) as u8;
    let nb = (8 - b) as u8;
    let nc = (8 - c) as u8;
    assert(c == (a + b) % 8);
    assert((((first ^ second) << a) | ((first ^ second) >> na)) == ((first << a) | (first >> na))
        ^ ((second << a) | (second >> na))) by (bit_vector)
        requires
            a < 8,
            na == 8 - a,
    ;
    assert((((first << a) | (first >> na)) << b) | (((first << a) | (first >> na)) >> nb) == (
    first << c) | (first >> nc)) by (bit_vector)
        requires
            a < 8,
            b < 8,
            c == (a + b) % 8,
            na == 8 - a,
            nb == 8 - b,
            nc == 8 - c,
    ;
    assert(((0u8 << a) | (0u8 >> na)) == 0) by (bit_vector);
}

/// Every syndrome of a chunk is the first syndrome, rotated left by the
/// number of its round.
pub proof fn lemma_syndromes_are_rotations(chunk: Seq<u8>, round: nat)
    ensures
        syndrome(chunk, round) == rotl8(syndrome(chunk, 0), round),
    decreases chunk.len(),
{
    if chunk.len() == 0 {
        lemma_rotation_laws(0, 0, round, 0);
    } else {
        let at = (chunk.len() - 1) as nat;
        lemma_syndromes_are_rotations(chunk.drop_last(), round);
        lemma_rotation_laws(
            syndrome(chunk.drop_last(), 0),
            rotl8(chunk.last(), at),
            round,
            0,
        );
        lemma_rotation_laws(chunk.last(), 0, at, round);
        assert(rotl8(chunk.last(), round + at) == rotl8(chunk.last(), at + round));
    }
}

/// **Freshness of one chunk**, spelled out. The syndromes of a chunk agree
/// if and only if there is one round only or a rotation by one bit leaves the
/// first syndrome as it is, which is so for the bytes `0x00` and `0xFF` and
/// for no other.
pub proof fn lemma_chunk_syndromes_agree(chunk: Seq<u8>, rounds: nat)
    requires
        rounds >= 1,
    ensures
        !syndromes_disagree(chunk_syndromes(chunk, rounds)) <==> rounds == 1 || syndrome(chunk, 0)
            == 0x00 || syndrome(chunk, 0) == 0xFF,
{
    let first = syndrome(chunk, 0);
    let found = chunk_syndromes(chunk, rounds);
    assert(rotl8(first, 1) == first <==> first == 0x00 || first == 0xFF) by {
        assert(((first << 1u8) | (first >> 7u8)) == first <==> first == 0x00u8 || first == 0xFFu8)
            by (bit_vector);
    }
    if rounds >= 2 {
        lemma_syndromes_are_rotations(chunk, 1);
        assert(found[1] == rotl8(first, 1));
        assert(found[0] == first);
        if rotl8(first, 1) == first {
            assert forall|round: int| 0 <= round < rounds implies #[trigger] found[round]
                == first by {
                lemma_fixed_by_one_rotation(first, round as nat);
                lemma_syndromes_are_rotations(chunk, round as nat);
            }
        }
    }
}

/// **Freshness of one chunk.** The frame of a payload of exactly eight bytes
/// reads as clean if and only if it holds one syndrome only, or the first
/// syndrome of the payload is `0x00` or `0xFF`.
pub proof fn lemma_quantum_one_chunk_reads_clean(payload: Seq<u8>, distance: u8, rounds: u8)
    requires
        payload.len() == 8,
        distance >= 3,
        rounds >= 1,
    ensures
        !quantum_has_errors(quantum_frame(payload, distance, rounds)) <==> rounds == 1
            || syndrome(payload, 0) == 0x00 || syndrome(payload, 0) == 0xFF,
{
    lemma_quantum_one_chunk(payload, distance, rounds);
    lemma_chunk_syndromes_agree(payload, rounds as nat);
}

/// A byte that a rotation by one bit leaves alone is left alone by every rotation.
proof fn lemma_fixed_by_one_rotation(byte: u8, by: nat)
    requires
        rotl8(byte, 1) == byte,
    ensures
        rotl8(byte, by) == byte,
    decreases by,
{
    if by == 0 {
        assert(((byte << 0u8) | (byte >> 8u8)) == byte) by (bit_vector);
    } else {
        lemma_fixed_by_one_rotation(byte, (by - 1) as nat);
        lemma_rotation_laws(byte, 0, (by - 1) as nat, 1);
    }
}

/// **Freshness**, as far as it holds. The frame of a payload that is not empty
/// reads as damaged if and only if, read in the block layout, it holds a block
/// whose syndromes disagree.
pub proof fn lemma_quantum_freshness(payload: Seq<u8>, distance: u8, rounds: u8)
    requires
        payload.len() > 0,
        distance >= 3,
        rounds >= 1,
    ensures
        quantum_has_errors(quantum_frame(payload, distance, rounds)) <==> exists|index: int|
            0 <= index < quantum_block_count(quantum_frame(payload, distance, rounds))
                && syndromes_disagree(
                #[trigger] block_syndromes(quantum_frame(payload, distance, rounds), index),
            ),
{
    lemma_quantum_frame_shape(payload, distance, rounds);
}

/// A frame that reads as clean decodes to the data bytes of its blocks as
/// they stand: nothing is corrected.
pub proof fn lemma_quantum_clean_frame_is_copied(frame: Seq<u8>, at: int)
    requires
        !quantum_has_errors(frame),
        0 <= at < 8 * quantum_block_count(frame),
    ensures
        quantum_payload(frame) is Ok,
        quantum_payload(frame)->Ok_0.len() == 8 * quantum_block_count(frame),
        quantum_payload(frame)->Ok_0[at] == block_data(frame, at / 8)[at % 8],
{
    assert(!syndromes_disagree(block_syndromes(frame, at / 8)));
    assert(quantum_payload(frame)->Ok_0[at] == decoded_byte(frame, at));
}

/// A frame that does not decode reads as damaged.
pub proof fn lemma_quantum_failure_reads_damaged(frame: Seq<u8>)
    requires
        quantum_payload(frame) is Err,
    ensures
        quantum_has_errors(frame),
{
}

/// **Determinism.** Codecs with the same parameters frame a payload alike.
pub proof fn lemma_quantum_frames_alike(
    first: QuantumErrorCorrection,
    second: QuantumErrorCorrection,
    payload: Seq<u8>,
)
    requires
        first.distance() == second.distance(),
        first.rounds() == second.rounds(),
    ensures
        first.frame_of(payload) == second.frame_of(payload),
{
}

/// What a frame decodes to, and whether it reads as damaged, is decided by the
/// frame alone, not by the codec that is asked.
pub proof fn lemma_quantum_frame_speaks_for_itself(
    first: QuantumErrorCorrection,
    second: QuantumErrorCorrection,
    frame: Seq<u8>,
)
    ensures
        first.payload_of(frame) == second.payload_of(frame),
        first.reads_damaged(frame) == second.reads_damaged(frame),
{
}

} // verus!
