//! Note references and the order in which a view lists them.

use vstd::prelude::*;

verus! {

/// Handle that the local store assigns to a note when it is ingested.
pub type NoteKey = u64;

/// Sortable projection of a stored note: its handle and its timestamp.
#[derive(Clone, Copy, Debug, PartialEq, Eq, Structural)]
pub struct NoteRef {
    pub key: NoteKey,
    pub created_at: u64,
}

/// The view order: newer notes first, equal timestamps by ascending handle.
pub open spec fn precedes(a: NoteRef, b: NoteRef) -> bool {
    a.created_at > b.created_at || (a.created_at == b.created_at && a.key < b.key)
}

impl NoteRef {
    /// Whether `self` is listed strictly before `other` in a view.
    pub fn precedes(&self, other: &NoteRef) -> (b: bool)
        ensures
            b == precedes(*self, *other),
    {
        self.created_at > other.created_at || (self.created_at == other.created_at && self.key
            < other.key)
    }
}

/// Any two different references are ordered one way or the other.
pub proof fn lemma_precedes_total(a: NoteRef, b: NoteRef)
    ensures
        a == b || precedes(a, b) || precedes(b, a),
        !(precedes(a, b) && precedes(b, a)),
        !precedes(a, a),
{
}

/// The view order is transitive.
pub proof fn lemma_precedes_transitive(a: NoteRef, b: NoteRef, c: NoteRef)
    requires
        precedes(a, b),
        precedes(b, c),
    ensures
        precedes(a, c),
{
}

} // verus!
