//! Byte-surface helpers shared by the texture registry and the atlas.

use vstd::prelude::*;

verus! {

/// A zeroed byte surface of the given length.
pub(crate) fn alloc_zeroed(len: usize) -> (r: Vec<u8>)
    ensures
        r@ == Seq::new(len as nat, |i: int| 0u8),
{
    let mut bytes: Vec<u8> = Vec::new();
    let mut i: usize = 0;
    while i < len
        invariant
            i <= len,
            bytes@.len() == i,
            forall|j: int| 0 <= j < i ==> #[trigger] bytes@[j] == 0u8,
        decreases len - i,
    {
        bytes.push(0u8);
        i += 1;
    }
    proof {
        assert(bytes@ =~= Seq::new(len as nat, |i: int| 0u8));
    }
    bytes
}

/// A fresh vector holding the same bytes as `src`.
pub(crate) fn copy_bytes(src: &Vec<u8>) -> (r: Vec<u8>)
    ensures
        r@ == src@,
{
    let mut bytes: Vec<u8> = Vec::new();
    let mut i: usize = 0;
    while i < src.len()
        invariant
            i <= src@.len(),
            bytes@ == src@.subrange(0, i as int),
        decreases src@.len() - i,
    {
        let byte = src[i];
        bytes.push(byte);
        i += 1;
        proof {
            assert(bytes@ =~= src@.subrange(0, i as int));
        }
    }
    proof {
        assert(bytes@ =~= src@);
    }
    bytes
}

} // verus!
