//! Small helpers on byte strings, shared by the modules of the crate.

use vstd::prelude::*;

verus! {

/// Copies the first `len` bytes of `data`.
pub(crate) fn copy_of(data: &[u8], len: usize) -> (out: Vec<u8>)
    requires
        len <= data@.len(),
    ensures
        out@ == data@.take(len as int),
{
    let mut out: Vec<u8> = Vec::new();
    let mut i: usize = 0;
    while i < len
        invariant
            i <= len <= data@.len(),
            out@ == data@.take(i as int),
        decreases len - i,
    {
        out.push(data[i]);
        assert(data@.take(i + 1) =~= data@.take(i as int).push(data@[i as int]));
        i += 1;
    }
    out
}

/// Appends `data` to `out`.
pub(crate) fn append(out: &mut Vec<u8>, data: &[u8])
    ensures
        final(out)@ == old(out)@ + data@,
{
    let mut i: usize = 0;
    while i < data.len()
        invariant
            i <= data@.len(),
            out@ == old(out)@ + data@.take(i as int),
        decreases data@.len() - i,
    {
        out.push(data[i]);
        assert(data@.take(i + 1) =~= data@.take(i as int).push(data@[i as int]));
        i += 1;
    }
    assert(data@.take(data@.len() as int) =~= data@);
}

/// A vector of `count` zero bytes.
pub(crate) fn zeros(count: usize) -> (out: Vec<u8>)
    ensures
        out@.len() == count,
        forall|i: int| 0 <= i < count ==> out@[i] == 0,
{
    let mut out: Vec<u8> = Vec::new();
    let mut i: usize = 0;
    while i < count
        invariant
            i <= count,
            out@.len() == i,
            forall|j: int| 0 <= j < i ==> out@[j] == 0,
        decreases count - i,
    {
        out.push(0);
        i += 1;
    }
    out
}

} // verus!
