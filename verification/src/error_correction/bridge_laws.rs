//! What holds of the bridge tier: fresh frames decode to their payload and
//! read as clean, one damaged block is outvoted, and a frame whose blocks are
//! all damaged is given up.

use vstd::prelude::*;
use vstd::wrapping::u8_specs::wrapping_add;
use super::bits::rotl8;
use super::bridge::{
    block_intact, bridge_block, bridge_block_size, bridge_frame, bridge_has_errors,
    bridge_payload, bridge_well_formed, checksum, checksum_step, frame_around,
    lemma_majority_unique, majority_byte, repeated, sealed_block, some_block_intact, votes,
    BridgeErrorCorrection,
};
use super::{ErrorCorrection, ErrorCorrectionError};

verus! {

/// `count` copies of a block are `count` times as long as the block.
pub proof fn lemma_repeated_len(block: Seq<u8>, count: nat)
    ensures
        repeated(block, count).len() == count * block.len(),
    decreases count,
{
    if count > 0 {
        lemma_repeated_len(block, (count - 1) as nat);
        assert((count - 1) * block.len() + block.len() == count * block.len())
            by (nonlinear_arith);
    } else {
        assert(0 * block.len() == 0) by (nonlinear_arith);
    }
}

/// Each stretch of the length of the block, in copies of a block, is the block.
pub proof fn lemma_repeated_block(block: Seq<u8>, count: nat, index: int)
    requires
        0 <= index < count,
    ensures
        0 <= index * block.len(),
        (index + 1) * block.len() == index * block.len() + block.len(),
        (index + 1) * block.len() <= repeated(block, count).len(),
        repeated(block, count).subrange(index * block.len(), (index + 1) * block.len()) == block,
    decreases count,
{
    lemma_repeated_len(block, count);
    lemma_repeated_len(block, (count - 1) as nat);
    if index < count - 1 {
        lemma_repeated_block(block, (count - 1) as nat, index);
    }
}

/// A frame around copies of a block of two bytes or more is well formed, and
/// each of its blocks is that block.
pub proof fn lemma_frame_shape(block: Seq<u8>, redundancy: u8, verification: u8)
    requires
        block.len() >= 2,
        redundancy >= 1,
    ensures
        frame_around(block, redundancy, verification).len() == 4 + redundancy * block.len(),
        frame_around(block, redundancy, verification)[1] == redundancy,
        bridge_well_formed(frame_around(block, redundancy, verification)),
        bridge_block_size(frame_around(block, redundancy, verification)) == block.len(),
        forall|index: int|
            0 <= index < redundancy ==> #[trigger] bridge_block(
                frame_around(block, redundancy, verification),
                index,
            ) == block,
{
    let frame = frame_around(block, redundancy, verification);
    let len = block.len() as int;
    lemma_repeated_len(block, redundancy as nat);
    assert((redundancy * len) / (redundancy as int) == len) by (nonlinear_arith)
        requires
            redundancy >= 1,
    ;
    assert(bridge_block_size(frame) == len);
    assert forall|index: int| 0 <= index < redundancy implies #[trigger] bridge_block(
        frame,
        index,
    ) == block by {
        lemma_repeated_block(block, redundancy as nat, index);
    }
}

/// A payload followed by its checksum is an intact block.
pub proof fn lemma_sealed_block_intact(payload: Seq<u8>)
    ensures
        block_intact(sealed_block(payload)),
{
    assert(sealed_block(payload).drop_last() =~= payload);
}

/// Where all blocks but one are the same intact block, the byte of that block
/// gets a vote from each of them, and every other byte at most the vote of the
/// one block that may differ, and none at all if that block is not intact.
pub proof fn lemma_votes_with_one_stray(
    frame: Seq<u8>,
    block: Seq<u8>,
    stray: int,
    position: int,
    value: u8,
    blocks: int,
)
    requires
        0 <= blocks <= frame[1],
        block_intact(block),
        forall|index: int|
            0 <= index < frame[1] && index != stray ==> #[trigger] bridge_block(frame, index)
                == block,
    ensures
        block[position] == value ==> votes(frame, position, value, blocks) >= blocks - (if 0
            <= stray < blocks {
            1int
        } else {
            0int
        }),
        block[position] != value ==> votes(frame, position, value, blocks) <= (if 0 <= stray
            < blocks {
            1int
        } else {
            0int
        }),
        block[position] != value && !block_intact(bridge_block(frame, stray)) ==> votes(
            frame,
            position,
            value,
            blocks,
        ) == 0,
        votes(frame, position, value, blocks) <= blocks,
    decreases blocks,
{
    if blocks > 0 {
        lemma_votes_with_one_stray(frame, block, stray, position, value, blocks - 1);
    }
}

/// **Round trip.** Decoding the frame of a payload that is not empty gives the
/// payload back, whatever the redundancy, as long as it is not zero.
pub proof fn lemma_bridge_round_trip(payload: Seq<u8>, redundancy: u8, verification: u8)
    requires
        payload.len() > 0,
        redundancy >= 1,
    ensures
        bridge_payload(bridge_frame(payload, redundancy, verification)) == Ok::<
            Seq<u8>,
            ErrorCorrectionError,
        >(payload),
{
    let block = sealed_block(payload);
    let frame = bridge_frame(payload, redundancy, verification);
    lemma_frame_shape(block, redundancy, verification);
    lemma_sealed_block_intact(payload);
    lemma_all_but_one_decide(frame, block, -1);
    assert(block.drop_last() =~= payload);
}

/// Where a well-formed frame holds, in all blocks but at most one, the same
/// intact block, and the one that differs cannot outvote the others, being
/// alone against two or not intact, decoding gives the data of that block.
proof fn lemma_all_but_one_decide(frame: Seq<u8>, block: Seq<u8>, stray: int)
    requires
        bridge_well_formed(frame),
        bridge_block_size(frame) == block.len(),
        block_intact(block),
        forall|index: int|
            0 <= index < frame[1] && index != stray ==> #[trigger] bridge_block(frame, index)
                == block,
        0 <= stray < frame[1] ==> frame[1] >= 3 || (frame[1] >= 2 && !block_intact(
            bridge_block(frame, stray),
        )),
    ensures
        bridge_payload(frame) == Ok::<Seq<u8>, ErrorCorrectionError>(block.drop_last()),
{
    let all = frame[1] as int;
    let witness = if stray == 0 {
        1int
    } else {
        0int
    };
    assert(bridge_block(frame, witness) == block);
    let decoded = bridge_payload(frame)->Ok_0;
    assert forall|position: int| 0 <= position < block.len() - 1 implies decoded[position]
        == block[position] by {
        assert forall|other: u8|
            {
                &&& #[trigger] votes(frame, position, other, all) <= votes(
                    frame,
                    position,
                    block[position],
                    all,
                )
                &&& other < block[position] ==> votes(frame, position, other, all) < votes(
                    frame,
                    position,
                    block[position],
                    all,
                )
            } by {
            lemma_votes_with_one_stray(frame, block, stray, position, other, all);
            lemma_votes_with_one_stray(frame, block, stray, position, block[position], all);
        }
        lemma_majority_unique(frame, position, block[position], majority_byte(frame, position));
    }
    assert(decoded =~= block.drop_last());
}

/// **Freshness.** The frame of a payload that is not empty reads as clean.
pub proof fn lemma_bridge_fresh_frame_is_clean(payload: Seq<u8>, redundancy: u8, verification: u8)
    requires
        payload.len() > 0,
        redundancy >= 1,
    ensures
        !bridge_has_errors(bridge_frame(payload, redundancy, verification)),
{
    lemma_frame_shape(sealed_block(payload), redundancy, verification);
    lemma_sealed_block_intact(payload);
}

/// **Majority correction.** With two copies or more, a frame in which one
/// byte of one block was overwritten, be it a data byte or the checksum, still
/// decodes to the payload. The checksum gives the damaged block away, so it
/// has no vote; and with three copies or more the others would outvote it even
/// if it had one.
pub proof fn lemma_bridge_outvotes_one_damaged_block(
    payload: Seq<u8>,
    redundancy: u8,
    verification: u8,
    block: int,
    offset: int,
    byte: u8,
)
    requires
        payload.len() > 0,
        redundancy >= 2,
        0 <= block < redundancy,
        0 <= offset <= payload.len(),
    ensures
        bridge_payload(
            bridge_frame(payload, redundancy, verification).update(
                3 + block * (payload.len() + 1) + offset,
                byte,
            ),
        ) == Ok::<Seq<u8>, ErrorCorrectionError>(payload),
{
    let sealed = sealed_block(payload);
    let size = sealed.len() as int;
    let frame = bridge_frame(payload, redundancy, verification);
    let at = 3 + block * size + offset;
    let damaged = frame.update(at, byte);
    lemma_frame_shape(sealed, redundancy, verification);
    lemma_sealed_block_intact(payload);
    assert(0 <= block * size && (block + 1) * size == block * size + size && (block + 1) * size
        <= redundancy * size) by (nonlinear_arith)
        requires
            0 <= block < redundancy,
            0 <= size,
    ;
    assert(bridge_block(frame, block) == sealed);
    if byte == sealed[offset] {
        assert(damaged =~= frame);
        lemma_bridge_round_trip(payload, redundancy, verification);
    } else {
        assert forall|index: int|
            0 <= index < damaged[1] && index != block implies #[trigger] bridge_block(
            damaged,
            index,
        ) == sealed by {
            assert(0 <= index * size && (index + 1) * size == index * size + size && (index + 1)
                * size <= redundancy * size && (index < block ==> (index + 1) * size <= block
                * size) && (index > block ==> (block + 1) * size <= index * size))
                by (nonlinear_arith)
                requires
                    0 <= index < redundancy,
                    0 <= block < redundancy,
                    0 <= size,
            ;
            assert(bridge_block(damaged, index) =~= bridge_block(frame, index));
        }
        assert(bridge_block(damaged, block) =~= sealed.update(offset, byte));
        lemma_damaged_block_is_not_intact(payload, offset, byte);
        lemma_all_but_one_decide(damaged, sealed, block);
        assert(sealed.drop_last() =~= payload);
    }
}

/// A sealed block in which one byte was changed is not intact.
pub proof fn lemma_damaged_block_is_not_intact(payload: Seq<u8>, offset: int, byte: u8)
    requires
        0 <= offset <= payload.len(),
        byte != sealed_block(payload)[offset],
    ensures
        !block_intact(sealed_block(payload).update(offset, byte)),
{
    let damaged = sealed_block(payload).update(offset, byte);
    if offset < payload.len() {
        assert(damaged.drop_last() =~= payload.update(offset, byte));
        lemma_checksum_detects_change(payload, offset, byte);
    } else {
        assert(damaged.drop_last() =~= payload);
    }
}

/// How many of the first `upto` blocks of `frame` are `block`.
pub open spec fn copies(frame: Seq<u8>, block: Seq<u8>, upto: int) -> nat
    decreases upto,
{
    if upto <= 0 {
        0
    } else {
        let one: nat = if bridge_block(frame, upto - 1) == block {
            1
        } else {
            0
        };
        copies(frame, block, upto - 1) + one
    }
}

/// Every copy of an intact block votes for the byte of that block, and a
/// byte that the block does not hold gets votes from other blocks only.
pub proof fn lemma_copies_vote(
    frame: Seq<u8>,
    block: Seq<u8>,
    position: int,
    value: u8,
    upto: int,
)
    requires
        block_intact(block),
        0 <= upto,
    ensures
        copies(frame, block, upto) <= upto,
        block[position] == value ==> votes(frame, position, value, upto) >= copies(
            frame,
            block,
            upto,
        ),
        block[position] != value ==> votes(frame, position, value, upto) + copies(
            frame,
            block,
            upto,
        ) <= upto,
    decreases upto,
{
    if upto > 0 {
        lemma_copies_vote(frame, block, position, value, upto - 1);
    }
}

/// **Majority.** A well-formed frame in which more than half of the blocks
/// are the sealed payload decodes to the payload, whatever the other blocks
/// hold.
pub proof fn lemma_bridge_majority_decides(frame: Seq<u8>, payload: Seq<u8>)
    requires
        bridge_well_formed(frame),
        bridge_block_size(frame) == payload.len() + 1,
        2 * copies(frame, sealed_block(payload), frame[1] as int) > frame[1],
    ensures
        bridge_payload(frame) == Ok::<Seq<u8>, ErrorCorrectionError>(payload),
{
    let block = sealed_block(payload);
    let all = frame[1] as int;
    lemma_sealed_block_intact(payload);
    lemma_a_copy_exists(frame, block, all);
    let decoded = bridge_payload(frame)->Ok_0;
    assert forall|position: int| 0 <= position < payload.len() implies decoded[position]
        == payload[position] by {
        assert forall|other: u8|
            {
                &&& #[trigger] votes(frame, position, other, all) <= votes(
                    frame,
                    position,
                    block[position],
                    all,
                )
                &&& other < block[position] ==> votes(frame, position, other, all) < votes(
                    frame,
                    position,
                    block[position],
                    all,
                )
            } by {
            lemma_copies_vote(frame, block, position, other, all);
            lemma_copies_vote(frame, block, position, block[position], all);
        }
        lemma_majority_unique(frame, position, block[position], majority_byte(frame, position));
    }
    assert(decoded =~= payload);
}

/// Where at least one of the first `upto` blocks is `block`, there is such a
/// block, and if `block` is intact the frame has an intact block.
proof fn lemma_a_copy_exists(frame: Seq<u8>, block: Seq<u8>, upto: int)
    requires
        copies(frame, block, upto) > 0,
        upto <= frame[1],
        block_intact(block),
    ensures
        some_block_intact(frame),
    decreases upto,
{
    if bridge_block(frame, upto - 1) != block {
        lemma_a_copy_exists(frame, block, upto - 1);
    }
}

/// A frame that reads as clean decodes: it is well formed and all its blocks
/// are intact.
pub proof fn lemma_bridge_clean_frame_decodes(frame: Seq<u8>)
    requires
        !bridge_has_errors(frame),
    ensures
        bridge_payload(frame) is Ok,
{
    assert(block_intact(bridge_block(frame, 0)));
}

/// Adding a byte, wrapping, and rotating by one bit tells different sums apart
/// and different bytes apart.
pub proof fn lemma_checksum_step_injective(first: u8, second: u8, byte: u8)
    requires
        first != second,
    ensures
        checksum_step(first, byte) != checksum_step(second, byte),
        checksum_step(byte, first) != checksum_step(byte, second),
{
    let a = wrapping_add(first, byte);
    let b = wrapping_add(second, byte);
    let c = wrapping_add(byte, first);
    let d = wrapping_add(byte, second);
    lemma_rotate_by_one_injective(a, b);
    lemma_rotate_by_one_injective(c, d);
}

/// Rotating by one bit keeps different bytes different.
proof fn lemma_rotate_by_one_injective(first: u8, second: u8)
    requires
        first != second,
    ensures
        rotl8(first, 1) != rotl8(second, 1),
{
    assert(((first << 1u8) | (first >> 7u8)) == ((second << 1u8) | (second >> 7u8)) ==> first
        == second) by (bit_vector);
}

/// The checksum notices the change of any one byte.
pub proof fn lemma_checksum_detects_change(data: Seq<u8>, position: int, byte: u8)
    requires
        0 <= position < data.len(),
        byte != data[position],
    ensures
        checksum(data.update(position, byte)) != checksum(data),
    decreases data.len(),
{
    let changed = data.update(position, byte);
    if position == data.len() - 1 {
        assert(changed.drop_last() =~= data.drop_last());
        lemma_checksum_step_injective(byte, data[position], checksum(data.drop_last()));
    } else {
        assert(changed.drop_last() =~= data.drop_last().update(position, byte));
        lemma_checksum_detects_change(data.drop_last(), position, byte);
        lemma_checksum_step_injective(
            checksum(changed.drop_last()),
            checksum(data.drop_last()),
            data.last(),
        );
    }
}

/// **Uncorrectable.** A frame in which the same data byte was overwritten with
/// the same wrong value in every block, the checksums left as they were, has
/// no intact block, and decoding it fails with `Uncorrectable`.
pub proof fn lemma_bridge_gives_up_when_all_blocks_damaged(
    payload: Seq<u8>,
    redundancy: u8,
    verification: u8,
    position: int,
    byte: u8,
)
    requires
        payload.len() > 0,
        redundancy >= 1,
        0 <= position < payload.len(),
        byte != payload[position],
    ensures
        bridge_payload(
            frame_around(
                payload.update(position, byte).push(checksum(payload)),
                redundancy,
                verification,
            ),
        ) == Err::<Seq<u8>, ErrorCorrectionError>(ErrorCorrectionError::Uncorrectable),
{
    let block = payload.update(position, byte).push(checksum(payload));
    lemma_frame_shape(block, redundancy, verification);
    lemma_checksum_detects_change(payload, position, byte);
    assert(block.drop_last() =~= payload.update(position, byte));
}

/// **Determinism.** Codecs with the same parameters frame a payload alike.
pub proof fn lemma_bridge_frames_alike(
    first: BridgeErrorCorrection,
    second: BridgeErrorCorrection,
    payload: Seq<u8>,
)
    requires
        first.redundancy() == second.redundancy(),
        first.verification() == second.verification(),
    ensures
        first.frame_of(payload) == second.frame_of(payload),
{
}

/// What a frame decodes to, and whether it reads as damaged, is decided by the
/// frame alone, not by the codec that is asked.
pub proof fn lemma_bridge_frame_speaks_for_itself(
    first: BridgeErrorCorrection,
    second: BridgeErrorCorrection,
    frame: Seq<u8>,
)
    ensures
        first.payload_of(frame) == second.payload_of(frame),
        first.reads_damaged(frame) == second.reads_damaged(frame),
{
}

/// A frame that does not decode for want of well-formedness reads as damaged,
/// and so does one that is given up.
pub proof fn lemma_bridge_failure_reads_damaged(frame: Seq<u8>)
    requires
        bridge_payload(frame) is Err,
    ensures
        bridge_has_errors(frame),
{
    if bridge_well_formed(frame) {
        assert(!block_intact(bridge_block(frame, 0)));
    }
}

} // verus!
