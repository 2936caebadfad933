//! A snapshot of the local store: the profiles and notes that one tick's
//! lookups can see.

use crate::ids::{holds_bytes, same_bytes, NoteId, Pubkey};
use crate::note::Note;
use crate::noteref::NoteKey;
use vstd::prelude::*;

verus! {

/// The part of the store that a tick consults, read within one transaction.
/// Lookups by id and by handle return the first note that matches.
pub struct Snapshot {
    pub profiles: Vec<Pubkey>,
    pub notes: Vec<Note>,
}

/// The first note of `notes` with the id `id`.
pub open spec fn find_by_id(notes: Seq<Note>, id: NoteId) -> Option<Note>
    decreases notes.len(),
{
    if notes.len() == 0 {
        None
    } else if notes[0].id == id {
        Some(notes[0])
    } else {
        find_by_id(notes.skip(1), id)
    }
}

/// The first note of `notes` with the handle `key`.
pub open spec fn find_by_key(notes: Seq<Note>, key: NoteKey) -> Option<Note>
    decreases notes.len(),
{
    if notes.len() == 0 {
        None
    } else if notes[0].key == key {
        Some(notes[0])
    } else {
        find_by_key(notes.skip(1), key)
    }
}

impl Snapshot {
    /// A snapshot of a store that holds nothing.
    pub fn new() -> (s: Snapshot)
        ensures
            s.profiles@.len() == 0,
            s.notes@.len() == 0,
    {
        Snapshot { profiles: Vec::new(), notes: Vec::new() }
    }

    /// The store holds a profile for this author.
    pub open spec fn knows_profile(&self, pubkey: Pubkey) -> bool {
        self.profiles@.contains(pubkey)
    }

    /// The note that the store holds under this id.
    pub open spec fn note_with_id(&self, id: NoteId) -> Option<Note> {
        find_by_id(self.notes@, id)
    }

    /// The store holds a note with this id.
    pub open spec fn knows_note(&self, id: NoteId) -> bool {
        self.note_with_id(id).is_some()
    }

    /// The author of the note that the store holds under this id.
    pub open spec fn author_of(&self, id: NoteId) -> Option<Pubkey> {
        match self.note_with_id(id) {
            Some(n) => Some(n.pubkey),
            None => None,
        }
    }

    /// The note that the store holds under this handle.
    pub open spec fn note_with_key(&self, key: NoteKey) -> Option<Note> {
        find_by_key(self.notes@, key)
    }

    /// Records that the store holds a profile for `pubkey`.
    pub fn add_profile(&mut self, pubkey: Pubkey)
        ensures
            final(self).profiles@ == old(self).profiles@.push(pubkey),
            final(self).notes@ == old(self).notes@,
    {
        self.profiles.push(pubkey);
    }

    /// Records a note that the store holds.
    pub fn add_note(&mut self, note: Note)
        ensures
            final(self).notes@ == old(self).notes@.push(note),
            final(self).profiles@ == old(self).profiles@,
    {
        self.notes.push(note);
    }

    /// Point lookup of a profile by author key.
    pub fn has_profile(&self, pubkey: &Pubkey) -> (b: bool)
        ensures
            b == self.knows_profile(*pubkey),
    {
        holds_bytes(&self.profiles, pubkey)
    }

    /// Point lookup of a note by id.
    pub fn get_note_by_id(&self, id: &NoteId) -> (r: Option<&Note>)
        ensures
            match r {
                Some(n) => self.note_with_id(*id) == Some(*n) && n.id == *id,
                None => self.note_with_id(*id).is_none(),
            },
    {
        let mut i: usize = 0;
        assert(self.notes@.skip(0) =~= self.notes@);
        while i < self.notes.len()
            invariant
                i <= self.notes.len(),
                find_by_id(self.notes@, *id) == find_by_id(self.notes@.skip(i as int), *id),
            decreases self.notes.len() - i,
        {
            let ghost rest = self.notes@.skip(i as int);
            if same_bytes(&self.notes[i].id, id) {
                return Some(&self.notes[i]);
            }
            assert(rest.skip(1) =~= self.notes@.skip(i + 1));
            i = i + 1;
        }
        None
    }

    /// Point lookup of a note by handle.
    pub fn get_note_by_key(&self, key: NoteKey) -> (r: Option<&Note>)
        ensures
            match r {
                Some(n) => self.note_with_key(key) == Some(*n) && n.key == key,
                None => self.note_with_key(key).is_none(),
            },
    {
        let mut i: usize = 0;
        assert(self.notes@.skip(0) =~= self.notes@);
        while i < self.notes.len()
            invariant
                i <= self.notes.len(),
                find_by_key(self.notes@, key) == find_by_key(self.notes@.skip(i as int), key),
            decreases self.notes.len() - i,
        {
            let ghost rest = self.notes@.skip(i as int);
            if self.notes[i].key == key {
                return Some(&self.notes[i]);
            }
            assert(rest.skip(1) =~= self.notes@.skip(i + 1));
            i = i + 1;
        }
        None
    }
}

} // verus!
