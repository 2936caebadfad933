//! The note cache: derived data per note handle, computed at most once.

use crate::note::{CachedNote, Note};
use crate::noteref::NoteKey;
use std::collections::HashMap;
use vstd::prelude::*;

verus! {

broadcast use vstd::std_specs::hash::group_hash_axioms;

/// Memoizes the derived data of notes by their handle. Nothing is evicted.
pub struct NoteCache {
    cache: HashMap<NoteKey, CachedNote>,
}

impl View for NoteCache {
    type V = Map<NoteKey, CachedNote>;

    closed spec fn view(&self) -> Map<NoteKey, CachedNote> {
        self.cache@
    }
}

/// The cache after handle `key` was asked for with `note` at hand: an entry
/// that is there stays, a missing one is computed from the note.
pub open spec fn with_note(
    cache: Map<NoteKey, CachedNote>,
    key: NoteKey,
    note: Note,
) -> Map<NoteKey, CachedNote> {
    if cache.contains_key(key) {
        cache
    } else {
        cache.insert(key, CachedNote::of(note))
    }
}

/// The derived data that a cache yields for a note: the stored entry, or
/// the one computed from the note.
pub open spec fn cached_for(cache: Map<NoteKey, CachedNote>, note: Note) -> CachedNote {
    if cache.contains_key(note.key) {
        cache[note.key]
    } else {
        CachedNote::of(note)
    }
}

/// The cache after each of `notes` was asked for, in order.
pub open spec fn cache_after(cache: Map<NoteKey, CachedNote>, notes: Seq<Note>) -> Map<
    NoteKey,
    CachedNote,
>
    decreases notes.len(),
{
    if notes.len() == 0 {
        cache
    } else {
        with_note(cache_after(cache, notes.drop_last()), notes.last().key, notes.last())
    }
}

/// An entry, once present, is what every later lookup of its handle yields.
pub proof fn lemma_entries_persist(cache: Map<NoteKey, CachedNote>, notes: Seq<Note>, key: NoteKey)
    requires
        cache.contains_key(key),
    ensures
        cache_after(cache, notes).contains_key(key),
        cache_after(cache, notes)[key] == cache[key],
    decreases notes.len(),
{
    if notes.len() > 0 {
        lemma_entries_persist(cache, notes.drop_last(), key);
    }
}

impl NoteCache {
    pub fn new() -> (c: NoteCache)
        ensures
            c@ == Map::<NoteKey, CachedNote>::empty(),
    {
        NoteCache { cache: HashMap::new() }
    }

    /// The entry of `note_key`, if one was stored; computes nothing.
    pub fn cached_note(&self, note_key: NoteKey) -> (r: Option<&CachedNote>)
        ensures
            r == (if self@.contains_key(note_key) {
                Some(&self@[note_key])
            } else {
                None
            }),
    {
        self.cache.get(&note_key)
    }

    /// The entry of `note_key`: the stored one where there is one, else the
    /// one computed from `note`, which is stored before it is returned.
    pub fn cached_note_or_insert(&mut self, note_key: NoteKey, note: &Note) -> (r: CachedNote)
        ensures
            final(self)@ == with_note(old(self)@, note_key, *note),
            r == final(self)@[note_key],
            old(self)@.contains_key(note_key) ==> r == old(self)@[note_key],
            note_key == note.key ==> r == cached_for(old(self)@, *note),
    {
        match self.cache.get(&note_key) {
            Some(c) => *c,
            None => {
                let c = CachedNote::new(note);
                self.cache.insert(note_key, c);
                c
            },
        }
    }

    /// Stores `cached` for `note_key`, in place of any earlier entry.
    pub fn insert(&mut self, note_key: NoteKey, cached: CachedNote)
        ensures
            final(self)@ == old(self)@.insert(note_key, cached),
    {
        self.cache.insert(note_key, cached);
    }

    pub fn len(&self) -> (n: usize)
        ensures
            n == self@.len(),
    {
        self.cache.len()
    }
}

} // verus!
