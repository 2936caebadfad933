//! The reference scanner and the resolver's request: which identities a
//! note refers to that the store cannot resolve, and the filters that ask
//! relays for them.

use crate::error::Error;
use crate::filter::{filter_views, unconstrained, Filter, FilterView};
use crate::ids::{same_bytes, NoteId, Pubkey};
use crate::note::{CachedNote, Mention, Note, NoteReply};
use crate::store::Snapshot;
use vstd::prelude::*;

verus! {

broadcast use vstd::array::group_array_axioms;

/// An identity that a note refers to and the store does not hold.
#[derive(Hash, Clone, Copy, PartialEq, Eq, Debug)]
pub enum UnknownId {
    Pubkey(Pubkey),
    Id(NoteId),
}

impl UnknownId {
    /// The author key, if this is one.
    pub fn is_pubkey(&self) -> (r: Option<&[u8; 32]>)
        ensures
            match r {
                Some(pk) => *self == UnknownId::Pubkey(*pk),
                None => self is Id,
            },
    {
        match self {
            UnknownId::Pubkey(pk) => Some(pk),
            _ => None,
        }
    }

    /// The note id, if this is one.
    pub fn is_id(&self) -> (r: Option<&[u8; 32]>)
        ensures
            match r {
                Some(id) => *self == UnknownId::Id(*id),
                None => self is Pubkey,
            },
    {
        match self {
            UnknownId::Id(id) => Some(id),
            _ => None,
        }
    }

    /// Whether both name the same identity.
    pub fn same(&self, other: &UnknownId) -> (r: bool)
        ensures
            r == (*self == *other),
    {
        match (self, other) {
            (UnknownId::Pubkey(a), UnknownId::Pubkey(b)) => same_bytes(a, b),
            (UnknownId::Id(a), UnknownId::Id(b)) => same_bytes(a, b),
            _ => false,
        }
    }
}

/// A set of unresolved identities, gathered during one resolution pass.
pub struct UnknownIds {
    ids: Vec<UnknownId>,
}

impl View for UnknownIds {
    type V = Set<UnknownId>;

    closed spec fn view(&self) -> Set<UnknownId> {
        self.ids@.to_set()
    }
}

impl UnknownIds {
    /// No identity is held twice.
    pub closed spec fn wf(&self) -> bool {
        self.ids@.no_duplicates()
    }

    pub fn new() -> (s: UnknownIds)
        ensures
            s.wf(),
            s@ == Set::<UnknownId>::empty(),
    {
        let s = UnknownIds { ids: Vec::new() };
        s
    }

    pub fn contains(&self, id: &UnknownId) -> (b: bool)
        ensures
            b == self@.contains(*id),
    {
        let mut i: usize = 0;
        while i < self.ids.len()
            invariant
                i <= self.ids.len(),
                forall|k: int| 0 <= k < i ==> self.ids@[k] != *id,
            decreases self.ids.len() - i,
        {
            if self.ids[i].same(id) {
                return true;
            }
            i = i + 1;
        }
        false
    }

    /// Adds `id`; a set that holds it already stays as it is.
    pub fn insert(&mut self, id: UnknownId)
        requires
            old(self).wf(),
        ensures
            final(self).wf(),
            final(self)@ == old(self)@.insert(id),
    {
        if !self.contains(&id) {
            let ghost before = self.ids@;
            self.ids.push(id);
            assert(self.ids@.to_set() =~= before.to_set().insert(id)) by {
                assert forall|x: UnknownId| self.ids@.contains(x) <==> (before.contains(x) || x
                    == id) by {
                    if before.contains(x) {
                        let k = choose|k: int| 0 <= k < before.len() && before[k] == x;
                        assert(self.ids@[k] == x);
                    }
                    if x == id {
                        assert(self.ids@[before.len() as int] == x);
                    }
                }
            }
        }
    }

    pub fn len(&self) -> (n: usize)
        requires
            self.wf(),
        ensures
            n == self@.len(),
            self@.finite(),
    {
        proof {
            self.ids@.unique_seq_to_set();
        }
        self.ids.len()
    }

    pub fn is_empty(&self) -> (b: bool)
        ensures
            b == (self@ == Set::<UnknownId>::empty()),
    {
        proof {
            if self.ids@.len() > 0 {
                assert(self@.contains(self.ids@[0]));
            } else {
                assert(self@ =~= Set::<UnknownId>::empty());
            }
        }
        self.ids.len() == 0
    }

    /// A copy of the identities in the order in which they were first
    /// added.
    pub fn to_vec(&self) -> (v: Vec<UnknownId>)
        requires
            self.wf(),
        ensures
            v@.to_set() == self@,
            v@.no_duplicates(),
    {
        let mut out: Vec<UnknownId> = Vec::new();
        let mut q: usize = 0;
        while q < self.ids.len()
            invariant
                q <= self.ids.len(),
                out@ == self.ids@.take(q as int),
            decreases self.ids.len() - q,
        {
            out.push(self.ids[q]);
            assert(self.ids@.take(q + 1) =~= self.ids@.take(q as int).push(self.ids@[q as int]));
            q = q + 1;
        }
        assert(self.ids@.take(self.ids@.len() as int) =~= self.ids@);
        out
    }

    /// The identities in the order in which they were first added.
    pub fn as_slice(&self) -> (v: &[UnknownId])
        requires
            self.wf(),
        ensures
            v@.to_set() == self@,
            v@.no_duplicates(),
    {
        self.ids.as_slice()
    }
}

/// Whether the store can resolve the identity.
pub open spec fn resolved(store: &Snapshot, x: UnknownId) -> bool {
    match x {
        UnknownId::Pubkey(pk) => store.knows_profile(pk),
        UnknownId::Id(id) => store.knows_note(id),
    }
}

/// Those of `s` that the store cannot resolve.
pub open spec fn pending(store: &Snapshot, s: Set<UnknownId>) -> Set<UnknownId> {
    Set::new(|x: UnknownId| s.contains(x) && !resolved(store, x))
}

/// The identities that one mention refers to: the author or the note that it
/// names, and with a note its author, as the store knows it or else as the
/// mention gives it.
pub open spec fn mention_refs(store: &Snapshot, m: Mention) -> Set<UnknownId> {
    match m {
        Mention::Pubkey(pk) => set![UnknownId::Pubkey(pk)],
        Mention::Profile(pk) => set![UnknownId::Pubkey(pk)],
        Mention::Event { id, pubkey } => match store.author_of(id) {
            Some(author) => set![UnknownId::Id(id), UnknownId::Pubkey(author)],
            None => match pubkey {
                Some(pk) => set![UnknownId::Id(id), UnknownId::Pubkey(pk)],
                None => set![UnknownId::Id(id)],
            },
        },
        Mention::Note(id) => match store.author_of(id) {
            Some(author) => set![UnknownId::Id(id), UnknownId::Pubkey(author)],
            None => set![UnknownId::Id(id)],
        },
        Mention::Other => Set::empty(),
    }
}

/// The notes that a reply structure names.
pub open spec fn reply_refs(reply: NoteReply) -> Set<UnknownId> {
    Set::new(
        |x: UnknownId|
            (reply.root matches Some(id) && x == UnknownId::Id(id)) || (reply.reply matches Some(
                id,
            ) && x == UnknownId::Id(id)),
    )
}

/// The identities that the mentions of a content refer to.
pub open spec fn block_refs(store: &Snapshot, blocks: Seq<Mention>) -> Set<UnknownId> {
    Set::new(
        |x: UnknownId|
            exists|i: int| 0 <= i < blocks.len() && #[trigger] mention_refs(store, blocks[i]).contains(x),
    )
}

/// Every identity that a note refers to: its author, the notes of its
/// cached reply structure, and what its mentions name.
pub open spec fn referenced(store: &Snapshot, cached: CachedNote, note: Note) -> Set<UnknownId> {
    set![UnknownId::Pubkey(note.pubkey)].union(reply_refs(cached.reply)).union(
        block_refs(store, note.mentions()),
    )
}

/// What a scan of the note reports: the identities it refers to that the
/// store cannot resolve.
pub open spec fn unresolved(store: &Snapshot, cached: CachedNote, note: Note) -> Set<UnknownId> {
    pending(store, referenced(store, cached, note))
}

fn scan_mention(store: &Snapshot, m: &Mention, ids: &mut UnknownIds)
    requires
        old(ids).wf(),
    ensures
        final(ids).wf(),
        final(ids)@ == old(ids)@.union(pending(store, mention_refs(store, *m))),
{
    match m {
        Mention::Pubkey(pk) => {
            if !store.has_profile(pk) {
                ids.insert(UnknownId::Pubkey(*pk));
            }
        },
        Mention::Profile(pk) => {
            if !store.has_profile(pk) {
                ids.insert(UnknownId::Pubkey(*pk));
            }
        },
        Mention::Event { id, pubkey } => {
            match store.get_note_by_id(id) {
                None => {
                    ids.insert(UnknownId::Id(*id));
                    if let Some(pk) = pubkey {
                        if !store.has_profile(pk) {
                            ids.insert(UnknownId::Pubkey(*pk));
                        }
                    }
                },
                Some(found) => {
                    if !store.has_profile(&found.pubkey) {
                        ids.insert(UnknownId::Pubkey(found.pubkey));
                    }
                },
            }
        },
        Mention::Note(id) => {
            match store.get_note_by_id(id) {
                None => {
                    ids.insert(UnknownId::Id(*id));
                },
                Some(found) => {
                    if !store.has_profile(&found.pubkey) {
                        ids.insert(UnknownId::Pubkey(found.pubkey));
                    }
                },
            }
        },
        Mention::Other => {},
    }
}

/// Scans one note and adds to `ids` every identity it refers to that the
/// store cannot resolve. The scan fails where the store did not produce the
/// content's blocks; the author and the reply structure are scanned even
/// then.
pub fn get_unknown_note_ids(
    store: &Snapshot,
    cached_note: &CachedNote,
    note: &Note,
    ids: &mut UnknownIds,
) -> (r: Result<(), Error>)
    requires
        old(ids).wf(),
    ensures
        final(ids).wf(),
        final(ids)@ == old(ids)@.union(unresolved(store, *cached_note, *note)),
        r == (if note.blocks.is_some() {
            Ok::<(), Error>(())
        } else {
            Err::<(), Error>(Error::StoreQueryFailure)
        }),
{
    let ghost start = ids@;
    let ghost head = set![UnknownId::Pubkey(note.pubkey)].union(reply_refs(cached_note.reply));
    if !store.has_profile(&note.pubkey) {
        ids.insert(UnknownId::Pubkey(note.pubkey));
    }
    if let Some(root) = cached_note.reply.root {
        if store.get_note_by_id(&root).is_none() {
            ids.insert(UnknownId::Id(root));
        }
    }
    if let Some(parent) = cached_note.reply.reply {
        if store.get_note_by_id(&parent).is_none() {
            ids.insert(UnknownId::Id(parent));
        }
    }
    let blocks = match &note.blocks {
        Some(blocks) => blocks,
        None => {
            return Err(Error::StoreQueryFailure);
        },
    };
    let mut i: usize = 0;
    while i < blocks.len()
        invariant
            i <= blocks.len(),
            ids.wf(),
            ids@ == start.union(pending(store, head)).union(
                pending(store, block_refs(store, blocks@.take(i as int))),
            ),
        decreases blocks.len() - i,
    {
        scan_mention(store, &blocks[i], ids);
        proof {
            let done = blocks@.take(i as int);
            let next = blocks@.take(i + 1);
            let m = blocks@[i as int];
            assert forall|x: UnknownId| block_refs(store, next).contains(x) <==> (block_refs(
                store,
                done,
            ).contains(x) || mention_refs(store, m).contains(x)) by {
                if block_refs(store, done).contains(x) {
                    let k = choose|k: int|
                        0 <= k < done.len() && #[trigger] mention_refs(store, done[k]).contains(x);
                    assert(next[k] == done[k]);
                }
                if block_refs(store, next).contains(x) {
                    let k = choose|k: int|
                        0 <= k < next.len() && #[trigger] mention_refs(store, next[k]).contains(x);
                    assert(k < i ==> done[k] == next[k]);
                }
                if mention_refs(store, m).contains(x) {
                    assert(mention_refs(store, next[i as int]).contains(x));
                }
            }
        }
        i = i + 1;
    }
    assert(blocks@.take(blocks@.len() as int) =~= blocks@);
    Ok(())
}

/// A note whose author the store knows, that answers nothing and mentions
/// nothing, leaves nothing to resolve.
pub proof fn lemma_nothing_unresolved(store: &Snapshot, cached: CachedNote, note: Note)
    requires
        store.knows_profile(note.pubkey),
        cached.reply.root.is_none(),
        cached.reply.reply.is_none(),
        note.mentions().len() == 0,
    ensures
        unresolved(store, cached, note) == Set::<UnknownId>::empty(),
{
}

/// A scan reports exactly the unresolved part of what the note refers to.
pub proof fn lemma_unresolved_exact(store: &Snapshot, cached: CachedNote, note: Note, x: UnknownId)
    ensures
        unresolved(store, cached, note).contains(x) <==> (referenced(store, cached, note).contains(
            x,
        ) && !resolved(store, x)),
        unresolved(store, cached, note).subset_of(referenced(store, cached, note)),
{
}

/// The identities that one mention names by itself.
pub open spec fn mention_named(m: Mention) -> Set<UnknownId> {
    match m {
        Mention::Pubkey(pk) => set![UnknownId::Pubkey(pk)],
        Mention::Profile(pk) => set![UnknownId::Pubkey(pk)],
        Mention::Event { id, pubkey } => match pubkey {
            Some(pk) => set![UnknownId::Id(id), UnknownId::Pubkey(pk)],
            None => set![UnknownId::Id(id)],
        },
        Mention::Note(id) => set![UnknownId::Id(id)],
        Mention::Other => Set::empty(),
    }
}

/// The identities that the mentions of a content name.
pub open spec fn block_named(blocks: Seq<Mention>) -> Set<UnknownId> {
    Set::new(
        |x: UnknownId|
            exists|i: int| 0 <= i < blocks.len() && #[trigger] mention_named(blocks[i]).contains(x),
    )
}

/// The identities that a note names by itself, whatever the store holds:
/// its author, the notes of its cached reply structure, and what its
/// mentions name.
pub open spec fn named(cached: CachedNote, note: Note) -> Set<UnknownId> {
    set![UnknownId::Pubkey(note.pubkey)].union(reply_refs(cached.reply)).union(
        block_named(note.mentions()),
    )
}

/// The author of the note that `x` names, where `x` names a note that the
/// store holds.
pub open spec fn author_ref(store: &Snapshot, x: UnknownId) -> Set<UnknownId> {
    match x {
        UnknownId::Id(id) => match store.author_of(id) {
            Some(author) => set![UnknownId::Pubkey(author)],
            None => Set::empty(),
        },
        UnknownId::Pubkey(_) => Set::empty(),
    }
}

/// The authors of the notes among `ids` that the store holds.
pub open spec fn held_authors(store: &Snapshot, ids: Seq<UnknownId>) -> Set<UnknownId> {
    Set::new(
        |x: UnknownId|
            exists|i: int| 0 <= i < ids.len() && #[trigger] author_ref(store, ids[i]).contains(x),
    )
}

/// Lists the identities that a scan of the note may ask the store for
/// at first: those that the note names by itself, each once.
pub fn lookups_of(cached: &CachedNote, note: &Note) -> (out: Vec<UnknownId>)
    ensures
        out@.to_set() == named(*cached, *note),
        out@.no_duplicates(),
{
    let mut ids = UnknownIds::new();
    ids.insert(UnknownId::Pubkey(note.pubkey));
    if let Some(root) = cached.reply.root {
        ids.insert(UnknownId::Id(root));
    }
    if let Some(parent) = cached.reply.reply {
        ids.insert(UnknownId::Id(parent));
    }
    let ghost head = set![UnknownId::Pubkey(note.pubkey)].union(reply_refs(cached.reply));
    assert(ids@ =~= head);
    if let Some(blocks) = &note.blocks {
        let mut i: usize = 0;
        assert(block_named(blocks@.take(0)) =~= Set::<UnknownId>::empty());
        assert(ids@ =~= head.union(block_named(blocks@.take(0))));
        while i < blocks.len()
            invariant
                i <= blocks.len(),
                ids.wf(),
                ids@ == head.union(block_named(blocks@.take(i as int))),
            decreases blocks.len() - i,
        {
            match &blocks[i] {
                Mention::Pubkey(pk) => {
                    ids.insert(UnknownId::Pubkey(*pk));
                },
                Mention::Profile(pk) => {
                    ids.insert(UnknownId::Pubkey(*pk));
                },
                Mention::Event { id, pubkey } => {
                    ids.insert(UnknownId::Id(*id));
                    if let Some(pk) = pubkey {
                        ids.insert(UnknownId::Pubkey(*pk));
                    }
                },
                Mention::Note(id) => {
                    ids.insert(UnknownId::Id(*id));
                },
                Mention::Other => {},
            }
            proof {
                let done = blocks@.take(i as int);
                let next = blocks@.take(i + 1);
                let m = blocks@[i as int];
                assert(next[i as int] == m);
                assert forall|x: UnknownId|
                    block_named(next).contains(x) <==> (block_named(done).contains(x)
                        || mention_named(m).contains(x)) by {
                    if block_named(done).contains(x) {
                        let k = choose|k: int|
                            0 <= k < done.len() && #[trigger] mention_named(done[k]).contains(x);
                        assert(next[k] == done[k]);
                    }
                    if block_named(next).contains(x) {
                        let k = choose|k: int|
                            0 <= k < next.len() && #[trigger] mention_named(next[k]).contains(x);
                        assert(k < i ==> done[k] == next[k]);
                    }
                    if mention_named(m).contains(x) {
                        assert(mention_named(next[i as int]).contains(x));
                    }
                }
                assert(ids@ =~= head.union(block_named(next)));
            }
            i = i + 1;
        }
        assert(blocks@.take(blocks@.len() as int) =~= blocks@);
    } else {
        assert(block_named(note.mentions()) =~= Set::<UnknownId>::empty());
        assert(ids@ =~= named(*cached, *note));
    }
    ids.to_vec()
}

/// Lists the identities that a scan may ask the store for once the first
/// lookups are answered: the authors of the notes among `lookups` that the
/// store holds, each once.
pub fn author_lookups(store: &Snapshot, lookups: &[UnknownId]) -> (out: Vec<UnknownId>)
    ensures
        out@.to_set() == held_authors(store, lookups@),
        out@.no_duplicates(),
{
    let mut ids = UnknownIds::new();
    let mut i: usize = 0;
    assert(held_authors(store, lookups@.take(0)) =~= Set::<UnknownId>::empty());
    while i < lookups.len()
        invariant
            i <= lookups.len(),
            ids.wf(),
            ids@ == held_authors(store, lookups@.take(i as int)),
        decreases lookups.len() - i,
    {
        if let UnknownId::Id(id) = &lookups[i] {
            if let Some(found) = store.get_note_by_id(id) {
                ids.insert(UnknownId::Pubkey(found.pubkey));
            }
        }
        proof {
            let done = lookups@.take(i as int);
            let next = lookups@.take(i + 1);
            let l = lookups@[i as int];
            assert(next[i as int] == l);
            assert forall|x: UnknownId|
                held_authors(store, next).contains(x) <==> (held_authors(store, done).contains(x)
                    || author_ref(store, l).contains(x)) by {
                if held_authors(store, done).contains(x) {
                    let k = choose|k: int|
                        0 <= k < done.len() && #[trigger] author_ref(store, done[k]).contains(x);
                    assert(next[k] == done[k]);
                }
                if held_authors(store, next).contains(x) {
                    let k = choose|k: int|
                        0 <= k < next.len() && #[trigger] author_ref(store, next[k]).contains(x);
                    assert(k < i ==> done[k] == next[k]);
                }
                if author_ref(store, l).contains(x) {
                    assert(author_ref(store, next[i as int]).contains(x));
                }
            }
            assert(ids@ =~= held_authors(store, next));
        }
        i = i + 1;
    }
    assert(lookups@.take(lookups@.len() as int) =~= lookups@);
    ids.to_vec()
}

/// The lookups that `lookups_of` and `author_lookups` list are all that a
/// scan refers to: whoever has answered them has answered every question
/// that the scan puts to the store.
pub proof fn lemma_lookups_cover(
    store: &Snapshot,
    cached: CachedNote,
    note: Note,
    lookups: Seq<UnknownId>,
)
    requires
        lookups.to_set() == named(cached, note),
    ensures
        referenced(store, cached, note).subset_of(
            lookups.to_set().union(held_authors(store, lookups)),
        ),
{
    let blocks = note.mentions();
    assert forall|x: UnknownId| referenced(store, cached, note).contains(x) implies lookups.to_set().union(
        held_authors(store, lookups),
    ).contains(x) by {
        if block_refs(store, blocks).contains(x) {
            let i = choose|i: int|
                0 <= i < blocks.len() && #[trigger] mention_refs(store, blocks[i]).contains(x);
            let id = match blocks[i] {
                Mention::Event { id, .. } => id,
                Mention::Note(id) => id,
                Mention::Pubkey(pk) => pk,
                Mention::Profile(pk) => pk,
                Mention::Other => note.id,
            };
            if mention_named(blocks[i]).contains(x) {
                assert(named(cached, note).contains(x));
            } else {
                assert(mention_named(blocks[i]).contains(UnknownId::Id(id)));
                assert(named(cached, note).contains(UnknownId::Id(id)));
                assert(lookups.to_set().contains(UnknownId::Id(id)));
                let k = choose|k: int| 0 <= k < lookups.len() && lookups[k] == UnknownId::Id(id);
                assert(author_ref(store, lookups[k]).contains(x));
            }
        }
    }
}

/// The author keys among `ids`, in order.
pub open spec fn pubkeys_of(ids: Seq<UnknownId>) -> Seq<Pubkey>
    decreases ids.len(),
{
    if ids.len() == 0 {
        Seq::empty()
    } else {
        match ids.last() {
            UnknownId::Pubkey(pk) => pubkeys_of(ids.drop_last()).push(pk),
            UnknownId::Id(_) => pubkeys_of(ids.drop_last()),
        }
    }
}

/// The note ids among `ids`, in order.
pub open spec fn note_ids_of(ids: Seq<UnknownId>) -> Seq<NoteId>
    decreases ids.len(),
{
    if ids.len() == 0 {
        Seq::empty()
    } else {
        match ids.last() {
            UnknownId::Id(id) => note_ids_of(ids.drop_last()).push(id),
            UnknownId::Pubkey(_) => note_ids_of(ids.drop_last()),
        }
    }
}

/// The kind of the records that describe an author.
pub const PROFILE_KIND: u64 = 0;

/// The filter that asks for the profiles of `authors`.
pub open spec fn profiles_filter(authors: Seq<Pubkey>) -> FilterView {
    FilterView { authors: Some(authors), kinds: Some(seq![PROFILE_KIND]), ..unconstrained() }
}

/// The filter that asks for the notes with the ids `ids`.
pub open spec fn notes_filter(ids: Seq<NoteId>) -> FilterView {
    FilterView { ids: Some(ids), ..unconstrained() }
}

/// The request that resolves `ids`: none for no identities, else one filter
/// for the profiles of the author keys, if there are any, followed by one
/// for the notes of the note ids, if there are any.
pub open spec fn unknown_ids_filter(ids: Seq<UnknownId>) -> Option<Seq<FilterView>> {
    if ids.len() == 0 {
        None
    } else {
        let authors = pubkeys_of(ids);
        let notes = note_ids_of(ids);
        let first = if authors.len() > 0 {
            seq![profiles_filter(authors)]
        } else {
            Seq::empty()
        };
        let second = if notes.len() > 0 {
            seq![notes_filter(notes)]
        } else {
            Seq::empty()
        };
        Some(first + second)
    }
}

/// Builds the follow-up request for a set of unresolved identities.
pub fn get_unknown_ids_filter(ids: &[UnknownId]) -> (r: Option<Vec<Filter>>)
    ensures
        match r {
            Some(filters) => unknown_ids_filter(ids@) == Some(filter_views(filters@)),
            None => unknown_ids_filter(ids@).is_none(),
        },
{
    if ids.len() == 0 {
        return None;
    }
    let mut pks: Vec<Pubkey> = Vec::new();
    let mut note_ids: Vec<NoteId> = Vec::new();
    let mut i: usize = 0;
    while i < ids.len()
        invariant
            i <= ids.len(),
            pks@ == pubkeys_of(ids@.take(i as int)),
            note_ids@ == note_ids_of(ids@.take(i as int)),
        decreases ids.len() - i,
    {
        assert(ids@.take(i + 1).drop_last() =~= ids@.take(i as int));
        match ids[i] {
            UnknownId::Pubkey(pk) => pks.push(pk),
            UnknownId::Id(id) => note_ids.push(id),
        }
        i = i + 1;
    }
    assert(ids@.take(ids@.len() as int) =~= ids@);
    let mut filters: Vec<Filter> = Vec::new();
    if pks.len() > 0 {
        let mut kinds: Vec<u64> = Vec::new();
        kinds.push(PROFILE_KIND);
        let pk_filter = Filter::new().authors(pks).kinds(kinds);
        filters.push(pk_filter);
    }
    if note_ids.len() > 0 {
        filters.push(Filter::new().ids(note_ids));
    }
    Some(filters)
}

/// A request is built exactly for a non-empty set, and it never holds more
/// than two filters nor none.
pub proof fn lemma_unknown_ids_filter_shape(ids: Seq<UnknownId>)
    ensures
        unknown_ids_filter(ids).is_none() <==> ids.len() == 0,
        unknown_ids_filter(ids) matches Some(filters) ==> 1 <= filters.len() <= 2,
    decreases ids.len(),
{
    if ids.len() > 0 {
        lemma_partition_sizes(ids);
    }
}

/// Every identity is either an author key or a note id.
pub proof fn lemma_partition_sizes(ids: Seq<UnknownId>)
    ensures
        pubkeys_of(ids).len() + note_ids_of(ids).len() == ids.len(),
    decreases ids.len(),
{
    if ids.len() > 0 {
        lemma_partition_sizes(ids.drop_last());
    }
}

} // verus!
