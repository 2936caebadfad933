//! What the ingestion logic reads of a stored note, as plain values.

use crate::ids::{NoteId, Pubkey};
use crate::noteref::{NoteKey, NoteRef};
use vstd::prelude::*;

verus! {

/// The reply structure of a note: the thread's root and the direct parent,
/// as far as the note names them.
#[derive(Clone, Copy, Debug, PartialEq, Eq)]
pub struct NoteReply {
    pub root: Option<NoteId>,
    pub reply: Option<NoteId>,
}

impl NoteReply {
    /// The structure of a note that answers nothing.
    pub fn none() -> (r: NoteReply)
        ensures
            r.root.is_none(),
            r.reply.is_none(),
    {
        NoteReply { root: None, reply: None }
    }

    pub open spec fn spec_is_reply_to_root(&self) -> bool {
        self.root.is_some() && self.reply.is_none()
    }

    /// The note answers the root of its thread directly.
    #[verifier::when_used_as_spec(spec_is_reply_to_root)]
    pub fn is_reply_to_root(&self) -> (b: bool)
        ensures
            b == self.spec_is_reply_to_root(),
    {
        self.root.is_some() && self.reply.is_none()
    }

    pub open spec fn spec_is_reply(&self) -> bool {
        self.root.is_some() || self.reply.is_some()
    }

    /// The note answers another note.
    #[verifier::when_used_as_spec(spec_is_reply)]
    pub fn is_reply(&self) -> (b: bool)
        ensures
            b == self.spec_is_reply(),
    {
        self.root.is_some() || self.reply.is_some()
    }
}

/// A mention embedded in a note's content.
#[derive(Clone, Copy, Debug, PartialEq, Eq)]
pub enum Mention {
    /// An author, by key.
    Pubkey(Pubkey),
    /// An author, by profile reference.
    Profile(Pubkey),
    /// An event, by id, with its author where the mention carries one.
    Event { id: NoteId, pubkey: Option<Pubkey> },
    /// A note, by id.
    Note(NoteId),
    /// Any other kind of reference: a relay, an address, a secret.
    Other,
}

/// A note as the store hands it out.
#[derive(Debug, Clone, PartialEq, Eq)]
pub struct Note {
    pub key: NoteKey,
    pub id: NoteId,
    pub pubkey: Pubkey,
    pub created_at: u64,
    pub reply: NoteReply,
    /// The mentions of the content in order, or `None` where the store could
    /// not produce the content's blocks.
    pub blocks: Option<Vec<Mention>>,
}

impl Note {
    /// The sortable projection of the note.
    pub fn note_ref(&self) -> (r: NoteRef)
        ensures
            r.key == self.key,
            r.created_at == self.created_at,
    {
        NoteRef { key: self.key, created_at: self.created_at }
    }

    /// The mentions of the content; none where the blocks are missing.
    pub open spec fn mentions(&self) -> Seq<Mention> {
        match self.blocks {
            Some(b) => b@,
            None => Seq::empty(),
        }
    }
}

/// The keys and timestamps of a list of notes, in the same order.
pub open spec fn refs_of(notes: Seq<Note>) -> Seq<NoteRef> {
    Seq::new(notes.len(), |i: int| NoteRef { key: notes[i].key, created_at: notes[i].created_at })
}

/// Derived data of a note, computed once and kept by the note cache.
#[derive(Clone, Copy, Debug, PartialEq, Eq)]
pub struct CachedNote {
    pub reply: NoteReply,
}

impl CachedNote {
    /// What is derived from a note; it depends on the note's content alone.
    pub open spec fn of(note: Note) -> CachedNote {
        CachedNote { reply: note.reply }
    }

    pub fn new(note: &Note) -> (c: CachedNote)
        ensures
            c == CachedNote::of(*note),
    {
        CachedNote { reply: note.reply }
    }
}

} // verus!
