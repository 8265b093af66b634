//! Identities and digests: 32 bytes each.

use vstd::prelude::*;

verus! {

/// Who an authority, a signer, a project, an asset or a user is.
pub type Identity = [u8; 32];

/// Whether two identities, or two digests, hold the same 32 bytes.
pub fn same_bytes(a: &[u8; 32], b: &[u8; 32]) -> (same: bool)
    ensures
        same == (*a == *b),
        same == (a@ == b@),
{
    let mut i: usize = 0;
    while i < 32
        invariant
            i <= 32,
            forall|j: int| 0 <= j < i ==> a@[j] == b@[j],
        decreases 32 - i,
    {
        if a[i] != b[i] {
            return false;
        }
        i = i + 1;
    }
    assert(a@ =~= b@);
    assert(*a =~= *b);
    true
}

} // verus!
