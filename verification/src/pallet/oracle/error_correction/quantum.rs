//! Quantum layer of the oracle framing: thirty-two trailing bytes of metadata.

use vstd::prelude::*;
use crate::bytes::copy_of;

verus! {

/// How many bytes the layer adds.
pub const METADATA_LEN: usize = 32;

/// The value of every metadata byte.
pub const METADATA_BYTE: u8 = 0xEC;

/// `data` followed by the metadata.
pub open spec fn protected(data: Seq<u8>) -> Seq<u8> {
    data + Seq::new(32, |i: int| METADATA_BYTE)
}

/// `data` without its last thirty-two bytes, if it has that many.
pub open spec fn recovered(data: Seq<u8>) -> Option<Seq<u8>> {
    if data.len() < 32 {
        None
    } else {
        Some(data.take(data.len() - 32))
    }
}

/// Appends the metadata to `data`.
pub fn protect(data: &[u8]) -> (out: Vec<u8>)
    ensures
        out@ == protected(data@),
{
    let mut out = copy_of(data, data.len());
    let mut i: usize = 0;
    while i < METADATA_LEN
        invariant
            i <= 32,
            out@ == data@ + Seq::new(i as nat, |i: int| METADATA_BYTE),
        decreases 32 - i,
    {
        out.push(METADATA_BYTE);
        assert(out@ =~= data@ + Seq::new((i + 1) as nat, |i: int| METADATA_BYTE));
        i += 1;
    }
    out
}

/// Strips the metadata from `data`. Data too short to hold it gives `None`.
pub fn recover(data: &[u8]) -> (out: Option<Vec<u8>>)
    ensures
        match out {
            Some(bytes) => recovered(data@) == Some(bytes@),
            None => recovered(data@) is None,
        },
{
    if data.len() < METADATA_LEN {
        return None;
    }
    Some(copy_of(data, data.len() - METADATA_LEN))
}

/// Stripping the metadata undoes appending it.
pub proof fn lemma_recover_undoes_protect(data: Seq<u8>)
    ensures
        recovered(protected(data)) == Some(data),
{
    assert(protected(data).take(data.len() as int) =~= data);
}

} // verus!
