//! Comparisons of byte strings.

use vstd::prelude::*;

verus! {

/// Whether `bytes` begins with `prefix`.
pub open spec fn starts_with(bytes: Seq<u8>, prefix: Seq<u8>) -> bool {
    prefix.len() <= bytes.len() && bytes.subrange(0, prefix.len() as int) == prefix
}

/// Whether two byte strings hold the same bytes in the same order.
pub fn bytes_equal(a: &[u8], b: &[u8]) -> (same: bool)
    ensures
        same == (a@ == b@),
{
    if a.len() != b.len() {
        return false;
    }
    let mut i: usize = 0;
    while i < a.len()
        invariant
            a@.len() == b@.len(),
            i <= a@.len(),
            forall|k: int| 0 <= k < i ==> a@[k] == b@[k],
        decreases a@.len() - i,
    {
        if a[i] != b[i] {
            return false;
        }
        i += 1;
    }
    assert(a@ =~= b@);
    true
}

/// Whether `bytes` begins with `prefix`.
pub fn has_prefix<const N: usize>(bytes: &[u8], prefix: &[u8; N]) -> (found: bool)
    ensures
        found == starts_with(bytes@, prefix@),
{
    if bytes.len() < N {
        return false;
    }
    let mut i: usize = 0;
    while i < N
        invariant
            N <= bytes@.len(),
            prefix@.len() == N,
            i <= N,
            forall|k: int| 0 <= k < i ==> bytes@[k] == prefix@[k],
        decreases N - i,
    {
        if bytes[i] != prefix[i] {
            assert(bytes@.subrange(0, N as int)[i as int] != prefix@[i as int]);
            return false;
        }
        i += 1;
    }
    assert(bytes@.subrange(0, N as int) =~= prefix@);
    true
}

} // verus!
