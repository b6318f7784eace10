//! Classical layer of the oracle framing: sixteen trailing bytes that repeat
//! the redundancy value.

use vstd::prelude::*;
use crate::bytes::copy_of;

verus! {

/// How many bytes the layer adds.
pub const TRAILER_LEN: usize = 16;

/// `data` followed by sixteen bytes of value `redundancy`.
pub open spec fn encoded(data: Seq<u8>, redundancy: u8) -> Seq<u8> {
    data + Seq::new(16, |i: int| redundancy)
}

/// `data` without its last sixteen bytes, if it has that many.
pub open spec fn decoded(data: Seq<u8>) -> Option<Seq<u8>> {
    if data.len() < 16 {
        None
    } else {
        Some(data.take(data.len() - 16))
    }
}

/// Appends the trailer to `data`.
pub fn encode(data: &[u8], redundancy: u8) -> (out: Vec<u8>)
    ensures
        out@ == encoded(data@, redundancy),
{
    let mut out = copy_of(data, data.len());
    let mut i: usize = 0;
    while i < TRAILER_LEN
        invariant
            i <= 16,
            out@ == data@ + Seq::new(i as nat, |i: int| redundancy),
        decreases 16 - i,
    {
        out.push(redundancy);
        assert(out@ =~= data@ + Seq::new((i + 1) as nat, |i: int| redundancy));
        i += 1;
    }
    out
}

/// Strips the trailer from `data`. Data too short to hold one gives `None`.
pub fn decode(data: &[u8]) -> (out: Option<Vec<u8>>)
    ensures
        match out {
            Some(bytes) => decoded(data@) == Some(bytes@),
            None => decoded(data@) is None,
        },
{
    if data.len() < TRAILER_LEN {
        return None;
    }
    Some(copy_of(data, data.len() - TRAILER_LEN))
}

/// Stripping the trailer undoes appending it.
pub proof fn lemma_decode_undoes_encode(data: Seq<u8>, redundancy: u8)
    ensures
        decoded(encoded(data, redundancy)) == Some(data),
{
    assert(encoded(data, redundancy).take(data.len() as int) =~= data);
}

} // verus!
