//! Bridge tier: block repetition with a checksum per block and majority vote.
//!
//! A frame is `[0xB7, R, V]`, then `R` copies of the payload each followed by
//! its checksum byte, then `0xE8`. Decoding keeps the blocks whose checksum
//! holds and, at every position, takes the byte most of them agree on.

use vstd::prelude::*;
use vstd::wrapping::u8_specs::wrapping_add;

pub mod bridge_error_correction;

use super::bits::{clamp, clamp_u8, rotate_left, rotl8};
use crate::bytes::{append, zeros};
use super::{seen, ErrorCorrection, ErrorCorrectionError, ErrorCorrectionType};

verus! {

/// First byte of every bridge frame.
pub const BRIDGE_HEADER: u8 = 0xB7;

/// Last byte of every bridge frame.
pub const BRIDGE_TRAILER: u8 = 0xE8;

/// One step of the rolling checksum: add the byte, wrapping, then rotate left by one.
pub open spec fn checksum_step(acc: u8, byte: u8) -> u8 {
    rotl8(wrapping_add(acc, byte), 1)
}

/// The rolling checksum of `data`, starting from zero.
pub open spec fn checksum(data: Seq<u8>) -> u8
    decreases data.len(),
{
    if data.len() == 0 {
        0
    } else {
        checksum_step(checksum(data.drop_last()), data.last())
    }
}

/// A payload followed by its checksum.
pub open spec fn sealed_block(payload: Seq<u8>) -> Seq<u8> {
    payload.push(checksum(payload))
}

/// `count` copies of `block`, one after the other.
pub open spec fn repeated(block: Seq<u8>, count: nat) -> Seq<u8>
    decreases count,
{
    if count == 0 {
        Seq::empty()
    } else {
        repeated(block, (count - 1) as nat) + block
    }
}

/// Header, `redundancy` copies of `block`, and trailer.
pub open spec fn frame_around(block: Seq<u8>, redundancy: u8, verification: u8) -> Seq<u8> {
    seq![BRIDGE_HEADER, redundancy, verification] + repeated(block, redundancy as nat)
        + seq![BRIDGE_TRAILER]
}

/// The frame that protects `payload` with `redundancy` copies.
pub open spec fn bridge_frame(payload: Seq<u8>, redundancy: u8, verification: u8) -> Seq<u8> {
    frame_around(sealed_block(payload), redundancy, verification)
}

/// The length of each block of `frame`, checksum byte included.
pub open spec fn bridge_block_size(frame: Seq<u8>) -> int {
    (frame.len() - 4) / (frame[1] as int)
}

/// Whether `frame` has the markers, a redundancy above zero, and room for a
/// data byte and a checksum byte in each block.
pub open spec fn bridge_well_formed(frame: Seq<u8>) -> bool {
    &&& frame.len() >= 5
    &&& frame[0] == BRIDGE_HEADER
    &&& frame[frame.len() - 1] == BRIDGE_TRAILER
    &&& frame[1] > 0
    &&& bridge_block_size(frame) >= 2
}

/// Block `index` of `frame`.
pub open spec fn bridge_block(frame: Seq<u8>, index: int) -> Seq<u8> {
    let size = bridge_block_size(frame);
    frame.subrange(3 + index * size, 3 + (index + 1) * size)
}

/// Whether the last byte of `block` is the checksum of the bytes before it.
pub open spec fn block_intact(block: Seq<u8>) -> bool {
    block.len() >= 1 && checksum(block.drop_last()) == block.last()
}

/// How many of the first `blocks` blocks are intact and hold `value` at `position`.
pub open spec fn votes(frame: Seq<u8>, position: int, value: u8, blocks: int) -> nat
    decreases blocks,
{
    if blocks <= 0 {
        0
    } else {
        let block = bridge_block(frame, blocks - 1);
        let vote: nat = if block_intact(block) && block[position] == value {
            1
        } else {
            0
        };
        votes(frame, position, value, blocks - 1) + vote
    }
}

/// Whether `value` has the most votes at `position`; among values with equally
/// many votes the smallest wins.
pub open spec fn is_majority_byte(frame: Seq<u8>, position: int, value: u8) -> bool {
    let all = frame[1] as int;
    forall|other: u8|
        {
            &&& #[trigger] votes(frame, position, other, all) <= votes(frame, position, value, all)
            &&& other < value ==> votes(frame, position, other, all) < votes(
                frame,
                position,
                value,
                all,
            )
        }
}

/// The byte that wins the vote at `position`.
pub open spec fn majority_byte(frame: Seq<u8>, position: int) -> u8 {
    choose|value: u8| is_majority_byte(frame, position, value)
}

/// Whether at least one block of `frame` is intact.
pub open spec fn some_block_intact(frame: Seq<u8>) -> bool {
    exists|index: int| 0 <= index < frame[1] && block_intact(#[trigger] bridge_block(frame, index))
}

/// What decoding `frame` yields.
pub open spec fn bridge_payload(frame: Seq<u8>) -> Result<Seq<u8>, ErrorCorrectionError> {
    if !bridge_well_formed(frame) {
        Err(ErrorCorrectionError::InvalidData)
    } else if !some_block_intact(frame) {
        Err(ErrorCorrectionError::Uncorrectable)
    } else {
        Ok(Seq::new((bridge_block_size(frame) - 1) as nat, |position: int| majority_byte(frame, position)))
    }
}

/// Whether `frame` is malformed or holds a block whose checksum fails.
pub open spec fn bridge_has_errors(frame: Seq<u8>) -> bool {
    ||| !bridge_well_formed(frame)
    ||| exists|index: int|
        0 <= index < frame[1] && !block_intact(#[trigger] bridge_block(frame, index))
}

/// Codec of the bridge tier.
#[derive(Clone, Copy, Debug)]
pub struct BridgeErrorCorrection {
    redundancy_level: u8,
    verification_iterations: u8,
}

impl BridgeErrorCorrection {
    #[verifier::type_invariant]
    spec fn in_range(self) -> bool {
        &&& 1 <= self.redundancy_level <= 5
        &&& 1 <= self.verification_iterations <= 5
    }

    /// How many copies of the payload a frame of this codec holds.
    pub closed spec fn redundancy(self) -> u8 {
        self.redundancy_level
    }

    /// The verification count this codec writes into the header.
    pub closed spec fn verification(self) -> u8 {
        self.verification_iterations
    }

    /// Whether both parameters lie between 1 and 5.
    pub open spec fn valid(self) -> bool {
        &&& 1 <= self.redundancy() <= 5
        &&& 1 <= self.verification() <= 5
    }

    /// A codec with three copies and two verification passes.
    pub fn new() -> (codec: Self)
        ensures
            codec.redundancy() == 3,
            codec.verification() == 2,
            codec.valid(),
    {
        Self { redundancy_level: 3, verification_iterations: 2 }
    }

    /// A codec with the given parameters, each brought into the range 1 to 5.
    pub fn with_params(redundancy_level: u8, verification_iterations: u8) -> (codec: Self)
        ensures
            codec.redundancy() == clamp_u8(redundancy_level, 1, 5),
            codec.verification() == clamp_u8(verification_iterations, 1, 5),
            codec.valid(),
    {
        Self {
            redundancy_level: clamp(redundancy_level, 1, 5),
            verification_iterations: clamp(verification_iterations, 1, 5),
        }
    }
}

/// Computes the rolling checksum of `data[start..end]`.
fn compute_checksum(data: &[u8], start: usize, end: usize) -> (sum: u8)
    requires
        start <= end <= data@.len(),
    ensures
        sum == checksum(data@.subrange(start as int, end as int)),
{
    let mut sum: u8 = 0;
    let mut i: usize = start;
    while i < end
        invariant
            start <= i <= end <= data@.len(),
            sum == checksum(data@.subrange(start as int, i as int)),
        decreases end - i,
    {
        proof {
            let next = data@.subrange(start as int, i + 1);
            assert(next.drop_last() =~= data@.subrange(start as int, i as int));
            assert(next.last() == data@[i as int]);
        }
        sum = rotate_left(sum.wrapping_add(data[i]), 1);
        i += 1;
    }
    sum
}

/// The blocks of a well-formed frame lie between its header and its trailer.
pub proof fn lemma_block_bounds(frame: Seq<u8>, index: int)
    requires
        bridge_well_formed(frame),
        0 <= index < frame[1],
    ensures
        0 <= index * bridge_block_size(frame),
        (index + 1) * bridge_block_size(frame) == index * bridge_block_size(frame)
            + bridge_block_size(frame),
        3 + (index + 1) * bridge_block_size(frame) <= frame.len() - 1,
        bridge_block(frame, index).len() == bridge_block_size(frame),
{
    let size = bridge_block_size(frame);
    let count = frame[1] as int;
    let inner = frame.len() - 4;
    assert(count * size <= inner) by (nonlinear_arith)
        requires
            size == inner / count,
            count > 0,
            inner >= 0,
    ;
    assert(0 <= index * size && (index + 1) * size == index * size + size && (index + 1) * size
        <= count * size) by (nonlinear_arith)
        requires
            0 <= index < count,
            size >= 2,
    ;
}

/// At most one byte value wins the vote at a position.
pub proof fn lemma_majority_unique(frame: Seq<u8>, position: int, first: u8, second: u8)
    requires
        is_majority_byte(frame, position, first),
        is_majority_byte(frame, position, second),
    ensures
        first == second,
{
    let all = frame[1] as int;
    let for_first = votes(frame, position, first, all);
    let for_second = votes(frame, position, second, all);
    assert(for_first <= for_second && for_second <= for_first);
}

/// Among the byte values below `upto`, one has the most votes and is the
/// smallest of those that have as many.
proof fn lemma_leader_below(frame: Seq<u8>, position: int, upto: int) -> (best: u8)
    requires
        1 <= upto <= 256,
    ensures
        best < upto,
        forall|other: u8|
            other < upto ==> {
                &&& #[trigger] votes(frame, position, other, frame[1] as int) <= votes(
                    frame,
                    position,
                    best,
                    frame[1] as int,
                )
                &&& other < best ==> votes(frame, position, other, frame[1] as int) < votes(
                    frame,
                    position,
                    best,
                    frame[1] as int,
                )
            },
    decreases upto,
{
    if upto == 1 {
        0
    } else {
        let before = lemma_leader_below(frame, position, upto - 1);
        let next = (upto - 1) as u8;
        let all = frame[1] as int;
        if votes(frame, position, next, all) > votes(frame, position, before, all) {
            next
        } else {
            before
        }
    }
}

/// At every position some byte value wins the vote, and [`majority_byte`] is
/// that value.
pub proof fn lemma_majority_byte_wins(frame: Seq<u8>, position: int)
    ensures
        is_majority_byte(frame, position, majority_byte(frame, position)),
{
    let best = lemma_leader_below(frame, position, 256);
    assert(is_majority_byte(frame, position, best));
}

/// Tells for every block of the frame whether its checksum holds.
fn intact_blocks(data: &[u8], size: usize) -> (intact: Vec<bool>)
    requires
        bridge_well_formed(data@),
        size == bridge_block_size(data@),
    ensures
        intact@.len() == data@[1],
        forall|index: int|
            0 <= index < data@[1] ==> intact@[index] == block_intact(
                #[trigger] bridge_block(data@, index),
            ),
{
    let len = data.len();
    let count = data[1];
    let mut intact: Vec<bool> = Vec::new();
    let mut i: u8 = 0;
    while i < count
        invariant
            len == data@.len(),
            bridge_well_formed(data@),
            size == bridge_block_size(data@),
            count == data@[1],
            i <= count,
            intact@.len() == i,
            forall|index: int|
                0 <= index < i ==> intact@[index] == block_intact(
                    #[trigger] bridge_block(data@, index),
                ),
        decreases count - i,
    {
        proof {
            lemma_block_bounds(data@, i as int);
        }
        let start = 3 + (i as usize) * size;
        let end = start + size - 1;
        let sum = compute_checksum(data, start, end);
        proof {
            let block = bridge_block(data@, i as int);
            assert(block.drop_last() =~= data@.subrange(start as int, end as int));
            assert(block.last() == data@[end as int]);
        }
        intact.push(sum == data[end]);
        i += 1;
    }
    intact
}

/// Counts, for every byte value, the intact blocks that hold it at `position`.
fn tally(data: &[u8], intact: &Vec<bool>, size: usize, position: usize) -> (counts: Vec<u8>)
    requires
        bridge_well_formed(data@),
        size == bridge_block_size(data@),
        position < size - 1,
        intact@.len() == data@[1],
        forall|index: int|
            0 <= index < data@[1] ==> intact@[index] == block_intact(
                #[trigger] bridge_block(data@, index),
            ),
    ensures
        counts@.len() == 256,
        forall|value: u8|
            counts@[value as int] == #[trigger] votes(
                data@,
                position as int,
                value,
                data@[1] as int,
            ),
{
    let len = data.len();
    let count = data[1];
    let mut counts = zeros(256);
    let mut i: u8 = 0;
    while i < count
        invariant
            len == data@.len(),
            bridge_well_formed(data@),
            size == bridge_block_size(data@),
            position < size - 1,
            count == data@[1],
            i <= count,
            intact@.len() == count,
            forall|index: int|
                0 <= index < count ==> intact@[index] == block_intact(
                    #[trigger] bridge_block(data@, index),
                ),
            counts@.len() == 256,
            forall|value: u8|
                counts@[value as int] == #[trigger] votes(data@, position as int, value, i as int),
            forall|value: u8| #[trigger] votes(data@, position as int, value, i as int) <= i,
        decreases count - i,
    {
        proof {
            lemma_block_bounds(data@, i as int);
        }
        let at = 3 + (i as usize) * size + position;
        let ghost block = bridge_block(data@, i as int);
        assert(block[position as int] == data@[at as int]);
        let ghost before = counts@;
        if intact[i as usize] {
            let byte = data[at];
            assert(before[byte as int] == votes(data@, position as int, byte, i as int));
            let seen_so_far = counts[byte as usize];
            counts.set(byte as usize, seen_so_far + 1);
        }
        assert forall|value: u8|
            counts@[value as int] == #[trigger] votes(
                data@,
                position as int,
                value,
                i + 1,
            ) && votes(data@, position as int, value, i + 1) <= i + 1 by {
            assert(before[value as int] == votes(data@, position as int, value, i as int));
        }
        i += 1;
    }
    counts
}

/// Picks the byte value with the highest count, the smallest such value on a tie.
fn leader(counts: &Vec<u8>) -> (best: u8)
    requires
        counts@.len() == 256,
    ensures
        forall|other: u8|
            {
                &&& #[trigger] counts@[other as int] <= counts@[best as int]
                &&& other < best ==> counts@[other as int] < counts@[best as int]
            },
{
    let mut max_votes: u8 = 0;
    let mut max_byte: u8 = 0;
    let mut value: usize = 0;
    while value < 256
        invariant
            counts@.len() == 256,
            value <= 256,
            forall|other: int| 0 <= other < value ==> #[trigger] counts@[other] <= max_votes,
            forall|other: int| 0 <= other < max_byte ==> #[trigger] counts@[other] < max_votes,
            max_votes > 0 ==> max_byte < value && counts@[max_byte as int] == max_votes,
            max_votes == 0 ==> max_byte == 0,
        decreases 256 - value,
    {
        if counts[value] > max_votes {
            max_votes = counts[value];
            max_byte = value as u8;
        }
        value += 1;
    }
    max_byte
}

/// Tells whether any entry of `flags` is set.
fn any_set(flags: &Vec<bool>) -> (found: bool)
    ensures
        found == exists|index: int| 0 <= index < flags@.len() && #[trigger] flags@[index],
{
    let mut i: usize = 0;
    while i < flags.len()
        invariant
            i <= flags@.len(),
            forall|index: int| 0 <= index < i ==> !#[trigger] flags@[index],
        decreases flags@.len() - i,
    {
        if flags[i] {
            return true;
        }
        i += 1;
    }
    false
}

/// Decodes a bridge frame.
fn decode_bridge_frame(data: &[u8]) -> (result: Result<Vec<u8>, ErrorCorrectionError>)
    ensures
        seen(result) == bridge_payload(data@),
{
    let len = data.len();
    if len < 5 || data[0] != BRIDGE_HEADER || data[len - 1] != BRIDGE_TRAILER {
        return Err(ErrorCorrectionError::InvalidData);
    }
    let count = data[1];
    if count == 0 {
        return Err(ErrorCorrectionError::InvalidData);
    }
    let size = (len - 4) / (count as usize);
    if size < 2 {
        return Err(ErrorCorrectionError::InvalidData);
    }
    let data_size = size - 1;
    let intact = intact_blocks(data, size);
    if !any_set(&intact) {
        assert(!some_block_intact(data@)) by {
            if some_block_intact(data@) {
                let index = choose|index: int|
                    0 <= index < data@[1] && block_intact(#[trigger] bridge_block(data@, index));
                assert(intact@[index]);
            }
        }
        return Err(ErrorCorrectionError::Uncorrectable);
    }
    proof {
        let index = choose|index: int| 0 <= index < intact@.len() && #[trigger] intact@[index];
        assert(block_intact(bridge_block(data@, index)));
    }
    let mut result: Vec<u8> = Vec::new();
    let mut position: usize = 0;
    while position < data_size
        invariant
            bridge_well_formed(data@),
            size == bridge_block_size(data@),
            data_size == size - 1,
            position <= data_size,
            intact@.len() == data@[1],
            forall|index: int|
                0 <= index < data@[1] ==> intact@[index] == block_intact(
                    #[trigger] bridge_block(data@, index),
                ),
            result@.len() == position,
            forall|at: int| 0 <= at < position ==> result@[at] == majority_byte(data@, at),
        decreases data_size - position,
    {
        let counts = tally(data, &intact, size, position);
        let best = leader(&counts);
        proof {
            assert forall|other: u8|
                {
                    &&& #[trigger] votes(data@, position as int, other, data@[1] as int) <= votes(
                        data@,
                        position as int,
                        best,
                        data@[1] as int,
                    )
                    &&& other < best ==> votes(data@, position as int, other, data@[1] as int)
                        < votes(data@, position as int, best, data@[1] as int)
                } by {
                assert(counts@[other as int] <= counts@[best as int]);
            }
            assert(is_majority_byte(data@, position as int, best));
            lemma_majority_unique(
                data@,
                position as int,
                best,
                majority_byte(data@, position as int),
            );
        }
        result.push(best);
        position += 1;
    }
    assert(result@ =~= Seq::new(
        (bridge_block_size(data@) - 1) as nat,
        |position: int| majority_byte(data@, position),
    ));
    Ok(result)
}

/// Checks a bridge frame for damage.
fn check_bridge_frame(data: &[u8]) -> (damaged: bool)
    ensures
        damaged == bridge_has_errors(data@),
{
    let len = data.len();
    if len < 5 || data[0] != BRIDGE_HEADER || data[len - 1] != BRIDGE_TRAILER {
        return true;
    }
    let count = data[1];
    if count == 0 {
        return true;
    }
    let size = (len - 4) / (count as usize);
    if size < 2 {
        return true;
    }
    let mut i: u8 = 0;
    while i < count
        invariant
            len == data@.len(),
            bridge_well_formed(data@),
            size == bridge_block_size(data@),
            count == data@[1],
            i <= count,
            forall|index: int| 0 <= index < i ==> block_intact(#[trigger] bridge_block(data@, index)),
        decreases count - i,
    {
        proof {
            lemma_block_bounds(data@, i as int);
        }
        let start = 3 + (i as usize) * size;
        let end = start + size - 1;
        let sum = compute_checksum(data, start, end);
        proof {
            let block = bridge_block(data@, i as int);
            assert(block.drop_last() =~= data@.subrange(start as int, end as int));
            assert(block.last() == data@[end as int]);
        }
        if sum != data[end] {
            return true;
        }
        i += 1;
    }
    false
}

impl ErrorCorrection for BridgeErrorCorrection {
    open spec fn frame_of(&self, payload: Seq<u8>) -> Seq<u8> {
        bridge_frame(payload, self.redundancy(), self.verification())
    }

    open spec fn payload_of(&self, frame: Seq<u8>) -> Result<Seq<u8>, ErrorCorrectionError> {
        bridge_payload(frame)
    }

    open spec fn reads_damaged(&self, frame: Seq<u8>) -> bool {
        bridge_has_errors(frame)
    }

    open spec fn tier(&self) -> ErrorCorrectionType {
        ErrorCorrectionType::Bridge
    }

    fn encode(&self, data: &[u8]) -> (result: Result<Vec<u8>, ErrorCorrectionError>) {
        if data.len() == 0 {
            return Err(ErrorCorrectionError::InvalidData);
        }
        let mut encoded: Vec<u8> = Vec::new();
        encoded.push(BRIDGE_HEADER);
        encoded.push(self.redundancy_level);
        encoded.push(self.verification_iterations);
        let ghost header = encoded@;
        assert(header =~= seq![BRIDGE_HEADER, self.redundancy(), self.verification()]);
        assert(data@.subrange(0, data@.len() as int) =~= data@);
        let mut copies: u8 = 0;
        while copies < self.redundancy_level
            invariant
                copies <= self.redundancy_level,
                encoded@ == header + repeated(sealed_block(data@), copies as nat),
                data@.subrange(0, data@.len() as int) == data@,
            decreases self.redundancy_level - copies,
        {
            let ghost before = encoded@;
            append(&mut encoded, data);
            let sum = compute_checksum(data, 0, data.len());
            encoded.push(sum);
            copies += 1;
            assert(encoded@ =~= before + sealed_block(data@));
            assert(encoded@ =~= header + repeated(sealed_block(data@), copies as nat));
        }
        encoded.push(BRIDGE_TRAILER);
        assert(encoded@ =~= bridge_frame(data@, self.redundancy(), self.verification()));
        Ok(encoded)
    }

    fn decode(&self, data: &[u8]) -> (result: Result<Vec<u8>, ErrorCorrectionError>) {
        decode_bridge_frame(data)
    }

    fn has_errors(&self, data: &[u8]) -> (damaged: bool) {
        check_bridge_frame(data)
    }

    fn correction_type(&self) -> (tier: ErrorCorrectionType) {
        ErrorCorrectionType::Bridge
    }
}

} // verus!
