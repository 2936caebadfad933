//! The resolver's pass over all timelines: which identities the notes that
//! the timelines list refer to and the store cannot resolve.

use crate::damus::{Damus, DamusModel};
use crate::error::Error;
use crate::merge::has_key;
use crate::note::{CachedNote, Note};
use crate::notecache::cached_for;
use crate::noteref::{NoteKey, NoteRef};
use crate::store::Snapshot;
use crate::timeline::{TimelineModel, ViewFilter};
use crate::unknowns::{get_unknown_note_ids, unresolved, UnknownId, UnknownIds};
use vstd::prelude::*;

verus! {

/// The references that the timelines' views of notes and replies hold, one
/// timeline after the other.
pub open spec fn all_refs(timelines: Seq<TimelineModel>) -> Seq<NoteRef>
    decreases timelines.len(),
{
    if timelines.len() == 0 {
        Seq::empty()
    } else {
        all_refs(timelines.drop_last()) + timelines.last().views[1].notes
    }
}

/// Each reference that a timeline's view of notes and replies holds is
/// among the references of all timelines.
pub proof fn lemma_all_refs_holds(timelines: Seq<TimelineModel>, t: int, a: int)
    requires
        0 <= t < timelines.len(),
        0 <= a < timelines[t].views[1].notes.len(),
    ensures
        exists|i: int|
            0 <= i < all_refs(timelines).len() && all_refs(timelines)[i]
                == timelines[t].views[1].notes[a],
    decreases timelines.len(),
{
    let front = all_refs(timelines.drop_last());
    let whole = all_refs(timelines);
    if t == timelines.len() - 1 {
        assert(whole[front.len() + a] == timelines[t].views[1].notes[a]);
    } else {
        lemma_all_refs_holds(timelines.drop_last(), t, a);
        let i = choose|i: int|
            0 <= i < front.len() && front[i] == timelines.drop_last()[t].views[1].notes[a];
        assert(whole[i] == timelines[t].views[1].notes[a]);
    }
}

/// The store holds a note under the handle of each of `refs`.
pub open spec fn all_found(store: &Snapshot, refs: Seq<NoteRef>) -> bool {
    forall|i: int| 0 <= i < refs.len() ==> store.note_with_key((#[trigger] refs[i]).key).is_some()
}

/// The note that the store holds under the handle `key`.
pub open spec fn stored(store: &Snapshot, key: NoteKey) -> Note {
    store.note_with_key(key)->0
}

/// What the scans of the stored notes of `refs` report together, each note
/// scanned with the derived data that `cache` yields for it.
pub open spec fn unknown_of_refs(
    store: &Snapshot,
    cache: Map<NoteKey, CachedNote>,
    refs: Seq<NoteRef>,
) -> Set<UnknownId> {
    Set::new(
        |x: UnknownId|
            exists|i: int|
                0 <= i < refs.len() && #[trigger] unresolved(
                    store,
                    cached_for(cache, stored(store, refs[i].key)),
                    stored(store, refs[i].key),
                ).contains(x),
    )
}

/// The cache once the derived data of the stored notes of `refs` has been
/// added where it was missing.
pub open spec fn cache_with_refs(
    store: &Snapshot,
    cache: Map<NoteKey, CachedNote>,
    refs: Seq<NoteRef>,
) -> Map<NoteKey, CachedNote> {
    Map::new(
        |k: NoteKey| cache.contains_key(k) || has_key(refs, k),
        |k: NoteKey|
            if cache.contains_key(k) {
                cache[k]
            } else {
                CachedNote::of(stored(store, k))
            },
    )
}

/// Gathers, over the notes of all timelines, the identities that the store
/// cannot resolve. The pass first scans every note, computing derived data
/// that the cache lacks without touching the cache, and then adds what it
/// computed to the cache. It fails, and leaves the cache as it was, when
/// the store lacks a note that a timeline lists.
pub fn get_unknown_ids(damus: &mut Damus, store: &Snapshot) -> (r: Result<Vec<UnknownId>, Error>)
    requires
        old(damus).model().wf(),
    ensures
        final(damus).model().wf(),
        !all_found(store, all_refs(old(damus).model().timelines)) ==> {
            &&& r == Err::<Vec<UnknownId>, Error>(Error::StoreQueryFailure)
            &&& final(damus).model() == old(damus).model()
        },
        all_found(store, all_refs(old(damus).model().timelines)) ==> {
            &&& r matches Ok(ids)
            &&& ids@.no_duplicates()
            &&& ids@.to_set() == unknown_of_refs(
                store,
                old(damus).model().note_cache,
                all_refs(old(damus).model().timelines),
            )
            &&& final(damus).model() == (DamusModel {
                note_cache: cache_with_refs(
                    store,
                    old(damus).model().note_cache,
                    all_refs(old(damus).model().timelines),
                ),
                ..old(damus).model()
            })
        },
{
    let ghost cache0 = damus.note_cache@;
    let ghost models = damus.model().timelines;
    let mut ids = UnknownIds::new();
    let mut new_cached_notes: Vec<(NoteKey, CachedNote)> = Vec::new();
    let ghost mut done: Seq<NoteRef> = Seq::empty();
    let mut t: usize = 0;
    while t < damus.timelines.len()
        invariant
            t <= damus.timelines.len(),
            damus.model() == old(damus).model(),
            damus.model().wf(),
            models == damus.model().timelines,
            cache0 == damus.note_cache@,
            ids.wf(),
            done == all_refs(models.take(t as int)),
            all_found(store, done),
            ids@ == unknown_of_refs(store, cache0, done),
            forall|j: int|
                0 <= j < new_cached_notes@.len() ==> {
                    &&& has_key(done, (#[trigger] new_cached_notes@[j]).0)
                    &&& !cache0.contains_key(new_cached_notes@[j].0)
                    &&& new_cached_notes@[j].1 == CachedNote::of(
                        stored(store, new_cached_notes@[j].0),
                    )
                },
            forall|k: NoteKey|
                has_key(done, k) && !cache0.contains_key(k) ==> exists|j: int|
                    0 <= j < new_cached_notes@.len() && (#[trigger] new_cached_notes@[j]).0 == k,
        decreases damus.timelines.len() - t,
    {
        let notes = damus.timelines[t].notes(ViewFilter::NotesAndReplies);
        let ghost base = done;
        let mut a: usize = 0;
        while a < notes.len()
            invariant
                a <= notes.len(),
                damus.model() == old(damus).model(),
                models == damus.model().timelines,
                t < models.len(),
                old(damus).model().wf(),
                notes@ == models[t as int].views[1].notes,
                cache0 == damus.note_cache@,
                ids.wf(),
                done == base + notes@.take(a as int),
                all_found(store, done),
                ids@ == unknown_of_refs(store, cache0, done),
                forall|j: int|
                    0 <= j < new_cached_notes@.len() ==> {
                        &&& has_key(done, (#[trigger] new_cached_notes@[j]).0)
                        &&& !cache0.contains_key(new_cached_notes@[j].0)
                        &&& new_cached_notes@[j].1 == CachedNote::of(
                            stored(store, new_cached_notes@[j].0),
                        )
                    },
                forall|k: NoteKey|
                    has_key(done, k) && !cache0.contains_key(k) ==> exists|j: int|
                        0 <= j < new_cached_notes@.len() && (#[trigger] new_cached_notes@[j]).0
                            == k,
            decreases notes.len() - a,
        {
            let noteref = notes[a];
            let ghost prev = done;
            let ghost prev_queue = new_cached_notes@;
            let note = match store.get_note_by_key(noteref.key) {
                Some(note) => note,
                None => {
                    proof {
                        lemma_all_refs_holds(models, t as int, a as int);
                    }
                    return Err(Error::StoreQueryFailure);
                },
            };
            let cached_note = match damus.note_cache.cached_note(noteref.key) {
                Some(cn) => *cn,
                None => {
                    let cn = CachedNote::new(note);
                    new_cached_notes.push((noteref.key, cn));
                    cn
                },
            };
            let _ = get_unknown_note_ids(store, &cached_note, note, &mut ids);
            proof {
                done = prev.push(noteref);
                assert(done[prev.len() as int] == noteref);
                {
                    let found = unresolved(store, cached_note, *note);
                    assert forall|x: UnknownId|
                        #![trigger unknown_of_refs(store, cache0, done).contains(x)]
                        unknown_of_refs(store, cache0, done).contains(x) <==> (unknown_of_refs(
                            store,
                            cache0,
                            prev,
                        ).contains(x) || found.contains(x)) by {
                        if unknown_of_refs(store, cache0, prev).contains(x) {
                            let i = choose|i: int|
                                0 <= i < prev.len() && #[trigger] unresolved(
                                    store,
                                    cached_for(cache0, stored(store, prev[i].key)),
                                    stored(store, prev[i].key),
                                ).contains(x);
                            assert(unresolved(
                                store,
                                cached_for(cache0, stored(store, done[i].key)),
                                stored(store, done[i].key),
                            ).contains(x));
                        }
                        if found.contains(x) {
                            let i = prev.len() as int;
                            assert(unresolved(
                                store,
                                cached_for(cache0, stored(store, done[i].key)),
                                stored(store, done[i].key),
                            ).contains(x));
                        }
                        if unknown_of_refs(store, cache0, done).contains(x) {
                            let i = choose|i: int|
                                0 <= i < done.len() && #[trigger] unresolved(
                                    store,
                                    cached_for(cache0, stored(store, done[i].key)),
                                    stored(store, done[i].key),
                                ).contains(x);
                            if i < prev.len() {
                                assert(unresolved(
                                    store,
                                    cached_for(cache0, stored(store, prev[i].key)),
                                    stored(store, prev[i].key),
                                ).contains(x));
                            }
                        }
                    }
                }
                assert forall|j: int| 0 <= j < new_cached_notes@.len() implies {
                    &&& has_key(done, (#[trigger] new_cached_notes@[j]).0)
                    &&& !cache0.contains_key(new_cached_notes@[j].0)
                    &&& new_cached_notes@[j].1 == CachedNote::of(
                        stored(store, new_cached_notes@[j].0),
                    )
                } by {
                    if j < prev_queue.len() {
                        let k = new_cached_notes@[j].0;
                        let i = choose|i: int| 0 <= i < prev.len() && (#[trigger] prev[i]).key == k;
                        assert(done[i].key == k);
                    }
                }
                assert forall|k: NoteKey|
                    has_key(done, k) && !cache0.contains_key(k) implies exists|
                    j: int,
                |
                    0 <= j < new_cached_notes@.len() && (#[trigger] new_cached_notes@[j]).0
                        == k by {
                    let i = choose|i: int| 0 <= i < done.len() && (#[trigger] done[i]).key == k;
                    if i < prev.len() {
                        assert(has_key(prev, k));
                        let j = choose|j: int|
                            0 <= j < prev_queue.len() && (#[trigger] prev_queue[j]).0 == k;
                        assert(new_cached_notes@[j].0 == k);
                    } else {
                        assert(new_cached_notes@[new_cached_notes@.len() - 1].0 == k);
                    }
                }
            }
            a = a + 1;
        }
        proof {
            assert(models.take(t + 1).drop_last() =~= models.take(t as int));
        }
        t = t + 1;
    }
    assert(models.take(models.len() as int) =~= models);
    let ghost target = cache_with_refs(store, cache0, done);
    let mut m: usize = 0;
    while m < new_cached_notes.len()
        invariant
            m <= new_cached_notes.len(),
            (DamusModel { note_cache: cache0, ..damus.model() }) == old(damus).model(),
            target == cache_with_refs(store, cache0, done),
            forall|j: int|
                0 <= j < new_cached_notes@.len() ==> {
                    &&& has_key(done, (#[trigger] new_cached_notes@[j]).0)
                    &&& !cache0.contains_key(new_cached_notes@[j].0)
                    &&& new_cached_notes@[j].1 == CachedNote::of(
                        stored(store, new_cached_notes@[j].0),
                    )
                },
            forall|k: NoteKey|
                damus.note_cache@.contains_key(k) <==> (cache0.contains_key(k) || exists|j: int|
                    0 <= j < m && (#[trigger] new_cached_notes@[j]).0 == k),
            forall|k: NoteKey|
                damus.note_cache@.contains_key(k) ==> damus.note_cache@[k] == target[k],
        decreases new_cached_notes.len() - m,
    {
        let (note_key, cached) = new_cached_notes[m];
        damus.note_cache.insert(note_key, cached);
        m = m + 1;
    }
    proof {
        assert forall|k: NoteKey| target.contains_key(k) implies damus.note_cache@.contains_key(
            k,
        ) by {
            if !cache0.contains_key(k) {
                let j = choose|j: int|
                    0 <= j < new_cached_notes@.len() && (#[trigger] new_cached_notes@[j]).0 == k;
                assert(0 <= j < m);
            }
        }
        assert(damus.note_cache@ =~= target);
    }
    let out = ids.to_vec();
    Ok(out)
}

} // verus!
