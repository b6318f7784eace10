//! Bridge layer of the oracle framing: every byte written twice.

use vstd::prelude::*;

verus! {

/// `data` with every byte doubled.
pub open spec fn encoded(data: Seq<u8>) -> Seq<u8> {
    Seq::new(2 * data.len(), |i: int| data[i / 2])
}

/// Every other byte of `data`, beginning with the first, if `data` has an
/// even number of bytes.
pub open spec fn decoded(data: Seq<u8>) -> Option<Seq<u8>> {
    if data.len() % 2 != 0 {
        None
    } else {
        Some(Seq::new(data.len() / 2, |i: int| data[2 * i]))
    }
}

/// Doubles every byte of `data`. The redundancy level is accepted for the
/// sake of the callers and plays no part.
pub fn encode(data: &[u8], redundancy_level: u8) -> (out: Vec<u8>)
    ensures
        out@ == encoded(data@),
{
    let mut out: Vec<u8> = Vec::new();
    let mut i: usize = 0;
    while i < data.len()
        invariant
            i <= data@.len(),
            out@.len() == 2 * i,
            forall|at: int| 0 <= at < 2 * i ==> out@[at] == data@[at / 2],
        decreases data@.len() - i,
    {
        out.push(data[i]);
        out.push(data[i]);
        i += 1;
    }
    assert(out@ =~= encoded(data@));
    out
}

/// Keeps every other byte of `data`. Data of odd length gives `None`.
pub fn decode(data: &[u8]) -> (out: Option<Vec<u8>>)
    ensures
        match out {
            Some(bytes) => decoded(data@) == Some(bytes@),
            None => decoded(data@) is None,
        },
{
    let len = data.len();
    if len % 2 != 0 {
        return None;
    }
    let mut out: Vec<u8> = Vec::new();
    let mut i: usize = 0;
    while i < len
        invariant
            len == data@.len(),
            len % 2 == 0,
            i <= len,
            i % 2 == 0,
            out@.len() == i / 2,
            forall|at: int| 0 <= at < i / 2 ==> out@[at] == data@[2 * at],
        decreases len - i,
    {
        out.push(data[i]);
        i += 2;
    }
    assert(out@ =~= Seq::new(data@.len() / 2, |i: int| data@[2 * i]));
    Some(out)
}

/// Keeping every other byte undoes doubling.
pub proof fn lemma_decode_undoes_encode(data: Seq<u8>)
    ensures
        decoded(encoded(data)) == Some(data),
{
    assert(decoded(encoded(data))->Some_0 =~= data);
}

} // verus!
