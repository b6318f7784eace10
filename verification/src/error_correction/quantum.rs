//! Quantum tier: syndrome bytes per chunk and bit correction by syndrome majority.
//!
//! A frame is `[0x51, D, S]`, then the payload, then `S` syndrome bytes for each
//! chunk of eight payload bytes, then `0x45`. Decoding reads the body in blocks
//! of eight data bytes followed by `S` syndrome bytes. Where the syndromes of a
//! block disagree, every bit that more than half of them flag is flipped.

use vstd::prelude::*;
use super::bits::{bit_is_set, clamp, clamp_u8, rotate_left, rotl8, test_bit};
use crate::bytes::append;
use super::{seen, ErrorCorrection, ErrorCorrectionError, ErrorCorrectionType};

verus! {

/// First byte of every quantum frame.
pub const QUANTUM_HEADER: u8 = 0x51;

/// Last byte of every quantum frame.
pub const QUANTUM_TRAILER: u8 = 0x45;

/// How many payload bytes share one group of syndromes.
pub const CHUNK_SIZE: usize = 8;

/// Syndrome number `round` of `chunk`: the exclusive or of its bytes, each
/// rotated left by `round` plus its position in the chunk.
pub open spec fn syndrome(chunk: Seq<u8>, round: nat) -> u8
    decreases chunk.len(),
{
    if chunk.len() == 0 {
        0
    } else {
        syndrome(chunk.drop_last(), round) ^ rotl8(
            chunk.last(),
            round + (chunk.len() - 1) as nat,
        )
    }
}

/// The first `rounds` syndromes of `chunk`.
pub open spec fn chunk_syndromes(chunk: Seq<u8>, rounds: nat) -> Seq<u8> {
    Seq::new(rounds, |round: int| syndrome(chunk, round as nat))
}

/// How many chunks a payload of `len` bytes has; the last may be short.
pub open spec fn chunk_count(len: nat) -> nat {
    (len + 7) / 8
}

/// Chunk `index` of `payload`.
pub open spec fn chunk_of(payload: Seq<u8>, index: int) -> Seq<u8> {
    let end = if 8 * index + 8 <= payload.len() {
        8 * index + 8
    } else {
        payload.len() as int
    };
    payload.subrange(8 * index, end)
}

/// The syndromes of the first `chunks` chunks of `payload`, chunk after chunk.
pub open spec fn syndromes(payload: Seq<u8>, rounds: nat, chunks: nat) -> Seq<u8>
    decreases chunks,
{
    if chunks == 0 {
        Seq::empty()
    } else {
        syndromes(payload, rounds, (chunks - 1) as nat) + chunk_syndromes(
            chunk_of(payload, chunks - 1),
            rounds,
        )
    }
}

/// The frame that protects `payload` with `rounds` syndromes per chunk.
pub open spec fn quantum_frame(payload: Seq<u8>, distance: u8, rounds: u8) -> Seq<u8> {
    seq![QUANTUM_HEADER, distance, rounds] + payload + syndromes(
        payload,
        rounds as nat,
        chunk_count(payload.len()),
    ) + seq![QUANTUM_TRAILER]
}

/// Whether `frame` has the markers and syndromes to check.
pub open spec fn quantum_framed(frame: Seq<u8>) -> bool {
    &&& frame.len() >= 5
    &&& frame[0] == QUANTUM_HEADER
    &&& frame[frame.len() - 1] == QUANTUM_TRAILER
    &&& frame[2] > 0
}

/// Whether `frame` is framed and names a code distance of at least three.
pub open spec fn quantum_well_formed(frame: Seq<u8>) -> bool {
    quantum_framed(frame) && frame[1] >= 3
}

/// The length of each block of `frame`: eight data bytes and the syndromes.
pub open spec fn quantum_block_size(frame: Seq<u8>) -> int {
    8 + frame[2]
}

/// How many whole blocks the body of `frame` holds.
pub open spec fn quantum_block_count(frame: Seq<u8>) -> int {
    (frame.len() - 4) / quantum_block_size(frame)
}

/// The data bytes of block `index` of `frame`.
pub open spec fn block_data(frame: Seq<u8>, index: int) -> Seq<u8> {
    let start = 3 + index * quantum_block_size(frame);
    frame.subrange(start, start + 8)
}

/// The syndrome bytes of block `index` of `frame`.
pub open spec fn block_syndromes(frame: Seq<u8>, index: int) -> Seq<u8> {
    let start = 3 + index * quantum_block_size(frame);
    frame.subrange(start + 8, start + quantum_block_size(frame))
}

/// Whether some syndrome differs from the first.
pub open spec fn syndromes_disagree(found: Seq<u8>) -> bool {
    exists|round: int| 0 < round < found.len() && #[trigger] found[round] != found[0]
}

/// How many of the first `upto` syndromes have bit `bit` set.
pub open spec fn bit_votes(found: Seq<u8>, bit: int, upto: int) -> nat
    decreases upto,
{
    if upto <= 0 {
        0
    } else {
        let vote: nat = if bit_is_set(found[upto - 1], bit) {
            1
        } else {
            0
        };
        bit_votes(found, bit, upto - 1) + vote
    }
}

/// Whether more than half of the syndromes have bit `bit` set.
pub open spec fn bit_flagged(found: Seq<u8>, bit: int) -> bool {
    bit_votes(found, bit, found.len() as int) > found.len() / 2
}

/// `byte` with each of its lowest `bits` bits flipped where the syndromes flag
/// that bit, counted from `offset`.
pub open spec fn flip_flagged(byte: u8, found: Seq<u8>, offset: int, bits: int) -> u8
    decreases bits,
{
    if bits <= 0 {
        byte
    } else {
        let below = flip_flagged(byte, found, offset, bits - 1);
        if bit_flagged(found, bits - 1 + offset) {
            below ^ (1u8 << ((bits - 1) as u8))
        } else {
            below
        }
    }
}

/// The data byte at position `offset` of a block after correction.
pub open spec fn corrected_byte(byte: u8, found: Seq<u8>, offset: int) -> u8 {
    flip_flagged(byte, found, offset, 8)
}

/// What a block decodes to: its data as it stands where the syndromes agree,
/// each byte corrected where they do not.
pub open spec fn decoded_block(data: Seq<u8>, found: Seq<u8>) -> Seq<u8> {
    if syndromes_disagree(found) {
        Seq::new(data.len(), |offset: int| corrected_byte(data[offset], found, offset))
    } else {
        data
    }
}

/// Byte `at` of what decoding `frame` yields.
pub open spec fn decoded_byte(frame: Seq<u8>, at: int) -> u8 {
    decoded_block(block_data(frame, at / 8), block_syndromes(frame, at / 8))[at % 8]
}

/// What decoding `frame` yields. Bytes after the last whole block are dropped.
pub open spec fn quantum_payload(frame: Seq<u8>) -> Result<Seq<u8>, ErrorCorrectionError> {
    if !quantum_well_formed(frame) {
        Err(ErrorCorrectionError::InvalidData)
    } else {
        Ok(Seq::new((8 * quantum_block_count(frame)) as nat, |at: int| decoded_byte(frame, at)))
    }
}

/// Whether `frame` is malformed or holds a block whose syndromes disagree.
pub open spec fn quantum_has_errors(frame: Seq<u8>) -> bool {
    ||| !quantum_well_formed(frame)
    ||| exists|index: int|
        0 <= index < quantum_block_count(frame) && syndromes_disagree(
            #[trigger] block_syndromes(frame, index),
        )
}

/// `distance` if it is odd, the next odd number otherwise, brought into 3 to 15.
pub open spec fn odd_distance(distance: u8) -> u8 {
    if distance % 2 == 1 {
        clamp_u8(distance, 3, 15)
    } else {
        clamp_u8((distance + 1) as u8, 3, 15)
    }
}

/// Codec of the quantum tier.
#[derive(Clone, Copy, Debug)]
pub struct QuantumErrorCorrection {
    code_distance: u8,
    syndrome_iterations: u8,
}

impl QuantumErrorCorrection {
    #[verifier::type_invariant]
    spec fn in_range(self) -> bool {
        &&& 3 <= self.code_distance <= 15
        &&& self.code_distance % 2 == 1
        &&& 1 <= self.syndrome_iterations <= 10
    }

    /// The code distance this codec writes into the header.
    pub closed spec fn distance(self) -> u8 {
        self.code_distance
    }

    /// How many syndromes a frame of this codec holds per chunk.
    pub closed spec fn rounds(self) -> u8 {
        self.syndrome_iterations
    }

    /// Whether the distance is odd and between 3 and 15, and the rounds
    /// between 1 and 10.
    pub open spec fn valid(self) -> bool {
        &&& 3 <= self.distance() <= 15
        &&& self.distance() % 2 == 1
        &&& 1 <= self.rounds() <= 10
    }

    /// A codec of distance five with four syndromes per chunk.
    pub fn new() -> (codec: Self)
        ensures
            codec.distance() == 5,
            codec.rounds() == 4,
            codec.valid(),
    {
        Self { code_distance: 5, syndrome_iterations: 4 }
    }

    /// A codec with the given parameters: the distance made odd and brought
    /// into 3 to 15, the rounds brought into 1 to 10.
    pub fn with_params(code_distance: u8, syndrome_iterations: u8) -> (codec: Self)
        ensures
            codec.distance() == odd_distance(code_distance),
            codec.rounds() == clamp_u8(syndrome_iterations, 1, 10),
            codec.valid(),
    {
        let odd = if code_distance % 2 == 1 {
            code_distance
        } else {
            code_distance + 1
        };
        Self {
            code_distance: clamp(odd, 3, 15),
            syndrome_iterations: clamp(syndrome_iterations, 1, 10),
        }
    }
}

/// Computes syndrome `round` of `data[start..end]`.
fn measure(data: &[u8], start: usize, end: usize, round: u8) -> (measurement: u8)
    requires
        start <= end <= data@.len(),
        end - start <= 8,
    ensures
        measurement == syndrome(data@.subrange(start as int, end as int), round as nat),
{
    let mut measurement: u8 = 0;
    let mut i: usize = start;
    while i < end
        invariant
            start <= i <= end <= data@.len(),
            end - start <= 8,
            measurement == syndrome(data@.subrange(start as int, i as int), round as nat),
        decreases end - i,
    {
        proof {
            let next = data@.subrange(start as int, i + 1);
            assert(next.drop_last() =~= data@.subrange(start as int, i as int));
            assert(next.last() == data@[i as int]);
        }
        measurement = measurement ^ rotate_left(data[i], round as usize + (i - start));
        i += 1;
    }
    measurement
}

/// Tells whether the syndromes `data[start..end]` disagree.
fn disagree(data: &[u8], start: usize, end: usize) -> (differ: bool)
    requires
        start <= end <= data@.len(),
    ensures
        differ == syndromes_disagree(data@.subrange(start as int, end as int)),
{
    let ghost found = data@.subrange(start as int, end as int);
    if end - start < 2 {
        return false;
    }
    let mut i: usize = start + 1;
    while i < end
        invariant
            start < i <= end <= data@.len(),
            found == data@.subrange(start as int, end as int),
            forall|round: int| 0 < round < i - start ==> #[trigger] found[round] == found[0],
        decreases end - i,
    {
        if data[i] != data[start] {
            assert(found[i - start] != found[0]);
            return true;
        }
        i += 1;
    }
    false
}

/// Counts the syndromes in `data[start..end]` that have bit `bit` set.
fn count_bit(data: &[u8], start: usize, end: usize, bit: usize) -> (count: u8)
    requires
        start <= end <= data@.len(),
        end - start <= 255,
    ensures
        count == bit_votes(
            data@.subrange(start as int, end as int),
            bit as int,
            end - start,
        ),
{
    let ghost found = data@.subrange(start as int, end as int);
    let mut count: u8 = 0;
    let mut i: usize = start;
    while i < end
        invariant
            start <= i <= end <= data@.len(),
            end - start <= 255,
            found == data@.subrange(start as int, end as int),
            count == bit_votes(found, bit as int, i - start),
            count <= i - start,
        decreases end - i,
    {
        assert(found[i - start] == data@[i as int]);
        if test_bit(data[i], bit) {
            count += 1;
        }
        i += 1;
    }
    count
}

/// Corrects the data byte at position `offset` of a block whose syndromes are
/// `data[start..end]`.
fn correct(byte: u8, data: &[u8], start: usize, end: usize, offset: usize) -> (corrected: u8)
    requires
        start <= end <= data@.len(),
        end - start <= 255,
        offset < 8,
    ensures
        corrected == corrected_byte(
            byte,
            data@.subrange(start as int, end as int),
            offset as int,
        ),
{
    let ghost found = data@.subrange(start as int, end as int);
    let half: u8 = ((end - start) / 2) as u8;
    let mut corrected = byte;
    let mut bit: u8 = 0;
    while bit < 8
        invariant
            start <= end <= data@.len(),
            end - start <= 255,
            offset < 8,
            bit <= 8,
            half == (end - start) / 2,
            found == data@.subrange(start as int, end as int),
            corrected == flip_flagged(byte, found, offset as int, bit as int),
        decreases 8 - bit,
    {
        let count = count_bit(data, start, end, bit as usize + offset);
        if count > half {
            corrected = corrected ^ (1u8 << bit);
        }
        bit += 1;
    }
    corrected
}

/// Decodes a quantum frame.
fn decode_quantum_frame(data: &[u8]) -> (result: Result<Vec<u8>, ErrorCorrectionError>)
    ensures
        seen(result) == quantum_payload(data@),
{
    let len = data.len();
    if len < 5 || data[0] != QUANTUM_HEADER || data[len - 1] != QUANTUM_TRAILER {
        return Err(ErrorCorrectionError::InvalidData);
    }
    if data[1] < 3 || data[2] == 0 {
        return Err(ErrorCorrectionError::InvalidData);
    }
    let size: usize = CHUNK_SIZE + data[2] as usize;
    let count = (len - 4) / size;
    let mut decoded: Vec<u8> = Vec::new();
    let mut index: usize = 0;
    while index < count
        invariant
            len == data@.len(),
            quantum_well_formed(data@),
            size == quantum_block_size(data@),
            count == quantum_block_count(data@),
            index <= count,
            decoded@.len() == 8 * index,
            forall|at: int| 0 <= at < decoded@.len() ==> decoded@[at] == decoded_byte(data@, at),
        decreases count - index,
    {
        proof {
            lemma_quantum_block_bounds(data@, index as int);
        }
        let start = 3 + index * size;
        let found_at = start + CHUNK_SIZE;
        let found_end = start + size;
        let differ = disagree(data, found_at, found_end);
        let ghost block = block_data(data@, index as int);
        let ghost found = block_syndromes(data@, index as int);
        assert(found == data@.subrange(found_at as int, found_end as int));
        let mut offset: usize = 0;
        while offset < CHUNK_SIZE
            invariant
                len == data@.len(),
                offset <= 8,
                index < count,
                count == quantum_block_count(data@),
                start + 8 == found_at,
                found_at <= found_end <= len,
                found_end - found_at <= 255,
                block == block_data(data@, index as int),
                block == data@.subrange(start as int, start + 8),
                found == block_syndromes(data@, index as int),
                found == data@.subrange(found_at as int, found_end as int),
                differ == syndromes_disagree(found),
                decoded@.len() == 8 * index + offset,
                forall|at: int|
                    0 <= at < decoded@.len() ==> decoded@[at] == decoded_byte(data@, at),
            decreases 8 - offset,
        {
            let byte = data[start + offset];
            let out = if differ {
                correct(byte, data, found_at, found_end, offset)
            } else {
                byte
            };
            assert(block[offset as int] == byte);
            assert(out == decoded_block(block, found)[offset as int]);
            decoded.push(out);
            offset += 1;
        }
        index += 1;
    }
    assert(decoded@ =~= Seq::new(
        (8 * quantum_block_count(data@)) as nat,
        |at: int| decoded_byte(data@, at),
    ));
    Ok(decoded)
}

/// Checks a quantum frame for damage.
fn check_quantum_frame(data: &[u8]) -> (damaged: bool)
    ensures
        damaged == quantum_has_errors(data@),
{
    let len = data.len();
    if len < 5 || data[0] != QUANTUM_HEADER || data[len - 1] != QUANTUM_TRAILER {
        return true;
    }
    if data[1] < 3 || data[2] == 0 {
        return true;
    }
    let size: usize = CHUNK_SIZE + data[2] as usize;
    let count = (len - 4) / size;
    let mut index: usize = 0;
    while index < count
        invariant
            len == data@.len(),
            quantum_well_formed(data@),
            size == quantum_block_size(data@),
            count == quantum_block_count(data@),
            index <= count,
            forall|earlier: int|
                0 <= earlier < index ==> !syndromes_disagree(
                    #[trigger] block_syndromes(data@, earlier),
                ),
        decreases count - index,
    {
        proof {
            lemma_quantum_block_bounds(data@, index as int);
        }
        let start = 3 + index * size;
        if disagree(data, start + CHUNK_SIZE, start + size) {
            assert(syndromes_disagree(block_syndromes(data@, index as int)));
            return true;
        }
        index += 1;
    }
    false
}

/// The whole blocks of a well-formed frame lie between its header and its trailer.
pub proof fn lemma_quantum_block_bounds(frame: Seq<u8>, index: int)
    requires
        quantum_framed(frame),
        0 <= index < quantum_block_count(frame),
    ensures
        0 <= index * quantum_block_size(frame),
        3 + index * quantum_block_size(frame) + quantum_block_size(frame) <= frame.len() - 1,
{
    let size = quantum_block_size(frame);
    let count = quantum_block_count(frame);
    let inner = frame.len() - 4;
    assert(count * size <= inner) by (nonlinear_arith)
        requires
            count == inner / size,
            size > 0,
            inner >= 0,
    ;
    assert(0 <= index * size && index * size + size <= count * size) by (nonlinear_arith)
        requires
            0 <= index < count,
            size > 0,
    ;
}

impl ErrorCorrection for QuantumErrorCorrection {
    open spec fn frame_of(&self, payload: Seq<u8>) -> Seq<u8> {
        quantum_frame(payload, self.distance(), self.rounds())
    }

    open spec fn payload_of(&self, frame: Seq<u8>) -> Result<Seq<u8>, ErrorCorrectionError> {
        quantum_payload(frame)
    }

    open spec fn reads_damaged(&self, frame: Seq<u8>) -> bool {
        quantum_has_errors(frame)
    }

    open spec fn tier(&self) -> ErrorCorrectionType {
        ErrorCorrectionType::Quantum
    }

    fn encode(&self, data: &[u8]) -> (result: Result<Vec<u8>, ErrorCorrectionError>) {
        let len = data.len();
        if len == 0 {
            return Err(ErrorCorrectionError::InvalidData);
        }
        let rounds = self.syndrome_iterations;
        let mut encoded: Vec<u8> = Vec::new();
        encoded.push(QUANTUM_HEADER);
        encoded.push(self.code_distance);
        encoded.push(rounds);
        append(&mut encoded, data);
        let ghost head = encoded@;
        let mut start: usize = 0;
        let ghost mut chunks: nat = 0;
        while start < len
            invariant
                len == data@.len(),
                rounds == self.syndrome_iterations,
                start == 8 * chunks || (start == len && chunks == chunk_count(len as nat)),
                start <= len,
                chunks <= chunk_count(len as nat),
                encoded@ == head + syndromes(data@, rounds as nat, chunks),
            decreases len - start,
        {
            let end = if len - start >= CHUNK_SIZE {
                start + CHUNK_SIZE
            } else {
                len
            };
            let ghost chunk = chunk_of(data@, chunks as int);
            assert(chunk == data@.subrange(start as int, end as int));
            let ghost before = encoded@;
            let mut round: u8 = 0;
            while round < rounds
                invariant
                    start <= end <= len,
                    end - start <= 8,
                    len == data@.len(),
                    round <= rounds,
                    chunk == data@.subrange(start as int, end as int),
                    encoded@ == before + chunk_syndromes(chunk, round as nat),
                decreases rounds - round,
            {
                let measurement = measure(data, start, end, round);
                encoded.push(measurement);
                assert(encoded@ =~= before + chunk_syndromes(chunk, (round + 1) as nat));
                round += 1;
            }
            proof {
                chunks = chunks + 1;
                assert(encoded@ =~= head + syndromes(data@, rounds as nat, chunks));
            }
            start = end;
        }
        encoded.push(QUANTUM_TRAILER);
        assert(encoded@ =~= quantum_frame(data@, self.distance(), self.rounds()));
        Ok(encoded)
    }

    fn decode(&self, data: &[u8]) -> (result: Result<Vec<u8>, ErrorCorrectionError>) {
        decode_quantum_frame(data)
    }

    fn has_errors(&self, data: &[u8]) -> (damaged: bool) {
        check_quantum_frame(data)
    }

    fn correction_type(&self) -> (tier: ErrorCorrectionType) {
        ErrorCorrectionType::Quantum
    }
}

} // verus!
