//! The 32-byte identities of the protocol: author keys and note ids.

use vstd::prelude::*;

verus! {

broadcast use vstd::array::group_array_axioms;

/// Public key of an author.
pub type Pubkey = [u8; 32];

/// Id of a note, as relays and the store know it.
pub type NoteId = [u8; 32];

/// Byte-wise comparison of two identities.
pub fn same_bytes(a: &[u8; 32], b: &[u8; 32]) -> (r: bool)
    ensures
        r == (*a == *b),
{
    let mut i: usize = 0;
    while i < 32
        invariant
            i <= 32,
            forall|k: int| 0 <= k < i ==> a[k] == b[k],
        decreases 32 - i,
    {
        if a[i] != b[i] {
            return false;
        }
        i = i + 1;
    }
    assert(*a =~= *b);
    true
}

/// Whether `list` holds `id`.
pub fn holds_bytes(list: &Vec<[u8; 32]>, id: &[u8; 32]) -> (r: bool)
    ensures
        r == list@.contains(*id),
{
    let mut i: usize = 0;
    while i < list.len()
        invariant
            i <= list.len(),
            forall|k: int| 0 <= k < i ==> list@[k] != *id,
        decreases list.len() - i,
    {
        if same_bytes(&list[i], id) {
            return true;
        }
        i = i + 1;
    }
    false
}

/// A copy of a list of identities.
pub fn copy_bytes_list(list: &Vec<[u8; 32]>) -> (out: Vec<[u8; 32]>)
    ensures
        out@ == list@,
{
    let mut out: Vec<[u8; 32]> = Vec::new();
    let mut i: usize = 0;
    while i < list.len()
        invariant
            i <= list.len(),
            out@ == list@.take(i as int),
        decreases list.len() - i,
    {
        out.push(list[i]);
        i = i + 1;
    }
    out
}

} // verus!
