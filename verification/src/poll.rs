//! Ingestion of notes that the store has made visible: the per-tick poll of
//! a timeline and the first fill of a timeline when it subscribes.

use crate::damus::{timeline_models, Damus, DamusModel};
use crate::error::Error;
use crate::merge::front_growth;
use crate::note::{refs_of, CachedNote, Note};
use crate::notecache::{cache_after, cached_for, NoteCache};
use crate::noteref::{NoteKey, NoteRef};
use crate::store::Snapshot;
use crate::timeline::{Timeline, TimelineModel, ViewFilter};
use crate::unknowns::{get_unknown_note_ids, unresolved, UnknownId, UnknownIds};
use vstd::prelude::*;

verus! {

/// How many notes a timeline takes from the store in one tick, at most.
pub const POLL_BATCH: u32 = 100;

/// How many notes the first fill of a timeline asks the store for when its
/// filter names no limit.
pub const DEFAULT_QUERY_LIMIT: i32 = 200;

/// The references of those of `notes` that a view with `filter` admits, in
/// order. Each note is judged by the derived data that the cache yields for
/// it once the notes before it were seen.
pub open spec fn select_refs(
    filter: ViewFilter,
    cache: Map<NoteKey, CachedNote>,
    notes: Seq<Note>,
) -> Seq<NoteRef>
    decreases notes.len(),
{
    if notes.len() == 0 {
        Seq::empty()
    } else {
        let earlier = select_refs(filter, cache, notes.drop_last());
        let note = notes.last();
        if filter.admits(cached_for(cache_after(cache, notes.drop_last()), note)) {
            earlier.push(NoteRef { key: note.key, created_at: note.created_at })
        } else {
            earlier
        }
    }
}

/// What the scans of `notes` report together. Each note is scanned with the
/// derived data that the cache yields for it once the notes before it were
/// seen.
pub open spec fn scan_all(
    store: &Snapshot,
    cache: Map<NoteKey, CachedNote>,
    notes: Seq<Note>,
) -> Set<UnknownId>
    decreases notes.len(),
{
    if notes.len() == 0 {
        Set::empty()
    } else {
        scan_all(store, cache, notes.drop_last()).union(
            unresolved(
                store,
                cached_for(cache_after(cache, notes.drop_last()), notes.last()),
                notes.last(),
            ),
        )
    }
}

impl TimelineModel {
    /// The timeline after `notes` were ingested with the cache `cache`.
    pub open spec fn ingest(self, cache: Map<NoteKey, CachedNote>, notes: Seq<Note>) -> TimelineModel {
        self.merge(select_refs(ViewFilter::Notes, cache, notes), refs_of(notes))
    }
}

impl DamusModel {
    /// The deck after timeline `i` has ingested `notes`.
    pub open spec fn ingest(self, i: int, notes: Seq<Note>) -> DamusModel {
        DamusModel {
            note_cache: cache_after(self.note_cache, notes),
            timelines: self.timelines.update(i, self.timelines[i].ingest(self.note_cache, notes)),
            ..self
        }
    }

    /// The deck after timeline `i` has subscribed with the store under `sub`
    /// and ingested the notes that the store held for it.
    pub open spec fn subscribe(self, i: int, sub: u64, notes: Seq<Note>) -> DamusModel {
        DamusModel {
            note_cache: cache_after(self.note_cache, notes),
            timelines: self.timelines.update(
                i,
                TimelineModel {
                    subscription: Some(sub),
                    ..self.timelines[i].ingest(self.note_cache, notes)
                },
            ),
            ..self
        }
    }
}

/// How many items a poll inserted at the front of each view of a timeline.
#[derive(Debug, Clone, Copy, PartialEq, Eq, Structural)]
pub struct Inserted {
    pub notes: usize,
    pub notes_and_replies: usize,
}

/// Looks each note up in the cache, computing what is missing, and sorts
/// the notes' references into those for the view of notes and those for the
/// view of notes and replies. With `scan` set it also scans each note for
/// identities that the store cannot resolve.
fn sort_into_views(
    cache: &mut NoteCache,
    store: &Snapshot,
    notes: &[Note],
    ids: &mut UnknownIds,
    scan: bool,
) -> (refs: (Vec<NoteRef>, Vec<NoteRef>))
    requires
        old(ids).wf(),
    ensures
        final(ids).wf(),
        final(cache)@ == cache_after(old(cache)@, notes@),
        refs.0@ == select_refs(ViewFilter::Notes, old(cache)@, notes@),
        refs.1@ == refs_of(notes@),
        final(ids)@ == (if scan {
            old(ids)@.union(scan_all(store, old(cache)@, notes@))
        } else {
            old(ids)@
        }),
{
    let mut plain: Vec<NoteRef> = Vec::new();
    let mut all: Vec<NoteRef> = Vec::new();
    let mut i: usize = 0;
    while i < notes.len()
        invariant
            i <= notes.len(),
            ids.wf(),
            cache@ == cache_after(old(cache)@, notes@.take(i as int)),
            plain@ == select_refs(ViewFilter::Notes, old(cache)@, notes@.take(i as int)),
            all@ == refs_of(notes@.take(i as int)),
            ids@ == (if scan {
                old(ids)@.union(scan_all(store, old(cache)@, notes@.take(i as int)))
            } else {
                old(ids)@
            }),
        decreases notes.len() - i,
    {
        let note = &notes[i];
        proof {
            assert(notes@.take(i + 1).drop_last() =~= notes@.take(i as int));
        }
        let cached = cache.cached_note_or_insert(note.key, note);
        if scan {
            let _ = get_unknown_note_ids(store, &cached, note, ids);
        }
        let r = note.note_ref();
        all.push(r);
        if ViewFilter::filter_notes(&cached, note) {
            plain.push(r);
        }
        i = i + 1;
    }
    assert(notes@.take(notes@.len() as int) =~= notes@);
    (plain, all)
}

/// Takes the notes that the store has made visible for one timeline since
/// the last poll: caches their derived data, scans them for identities that
/// the store cannot resolve, and merges their references into the
/// timeline's views. A timeline without a subscription cannot be polled:
/// the poll fails and changes nothing.
pub fn poll_notes_for_timeline(
    damus: &mut Damus,
    store: &Snapshot,
    timeline_ind: usize,
    new_notes: &[Note],
    ids: &mut UnknownIds,
) -> (r: Result<Inserted, Error>)
    requires
        old(damus).model().wf(),
        timeline_ind < old(damus).timelines@.len(),
        old(ids).wf(),
    ensures
        final(damus).model().wf(),
        final(ids).wf(),
        old(damus).model().timelines[timeline_ind as int].subscription.is_none() ==> {
            &&& r == Err::<Inserted, Error>(Error::NoActiveSubscription)
            &&& final(damus).model() == old(damus).model()
            &&& final(ids)@ == old(ids)@
        },
        old(damus).model().timelines[timeline_ind as int].subscription.is_some() ==> {
            &&& final(damus).model() == old(damus).model().ingest(timeline_ind as int, new_notes@)
            &&& final(ids)@ == old(ids)@.union(
                scan_all(store, old(damus).model().note_cache, new_notes@),
            )
            &&& r matches Ok(n)
            &&& n.notes == front_growth(
                old(damus).model().timelines[timeline_ind as int].views[0].notes,
                final(damus).model().timelines[timeline_ind as int].views[0].notes,
            )
            &&& n.notes_and_replies == front_growth(
                old(damus).model().timelines[timeline_ind as int].views[1].notes,
                final(damus).model().timelines[timeline_ind as int].views[1].notes,
            )
        },
{
    if damus.timelines[timeline_ind].subscription.is_none() {
        return Err(Error::NoActiveSubscription);
    }
    let (plain, all) = sort_into_views(&mut damus.note_cache, store, new_notes, ids, true);
    let ghost before = damus.timelines@;
    let (notes, notes_and_replies) = damus.timelines[timeline_ind].merge(
        plain.as_slice(),
        all.as_slice(),
    );
    proof {
        assert(timeline_models(damus.timelines@) =~= timeline_models(before).update(
            timeline_ind as int,
            damus.timelines@[timeline_ind as int].model(),
        ));
    }
    Ok(Inserted { notes, notes_and_replies })
}

impl Timeline {
    pub open spec fn spec_query_limit(&self) -> i32 {
        match self.filter@[0].limit {
            Some(limit) => limit as i32,
            None => DEFAULT_QUERY_LIMIT,
        }
    }

    /// How many notes the first fill asks the store for: the limit of the
    /// timeline's first filter, where it names one.
    #[verifier::when_used_as_spec(spec_query_limit)]
    pub fn query_limit(&self) -> (n: i32)
        requires
            self.model().wf(),
        ensures
            n == self.spec_query_limit(),
            0 <= n,
    {
        match self.filter[0].limit {
            Some(limit) => limit as i32,
            None => DEFAULT_QUERY_LIMIT,
        }
    }
}

/// Records the subscription that the store gave a timeline and fills the
/// timeline's views with the notes that the store already held for it,
/// each view with the notes that its filter admits.
pub fn setup_initial_nostrdb_subs(
    damus: &mut Damus,
    timeline_ind: usize,
    subscription: u64,
    results: &[Note],
)
    requires
        old(damus).model().wf(),
        timeline_ind < old(damus).timelines@.len(),
    ensures
        final(damus).model() == old(damus).model().subscribe(
            timeline_ind as int,
            subscription,
            results@,
        ),
        final(damus).model().wf(),
{
    let store = Snapshot::new();
    let mut scratch = UnknownIds::new();
    let (plain, all) = sort_into_views(&mut damus.note_cache, &store, results, &mut scratch, false);
    let ghost before = damus.timelines@;
    let timeline = &mut damus.timelines[timeline_ind];
    timeline.subscription = Some(subscription);
    let _ = timeline.merge(plain.as_slice(), all.as_slice());
    proof {
        assert(timeline_models(damus.timelines@) =~= timeline_models(before).update(
            timeline_ind as int,
            damus.timelines@[timeline_ind as int].model(),
        ));
    }
}

} // verus!
