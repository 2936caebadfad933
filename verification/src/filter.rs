//! Subscription filters and the rewrite of their lower time bound.

use crate::ids::{copy_bytes_list, NoteId, Pubkey};
use crate::noteref::NoteRef;
use vstd::prelude::*;

verus! {

/// Seconds by which a resumed subscription reaches back before the newest
/// note already held, to tolerate clock skew and late delivery.
pub const OVERLAP_SECONDS: u64 = 60;

/// A query over notes: constraints that are present must all hold.
#[derive(Debug, Clone, PartialEq, Eq)]
pub struct Filter {
    pub ids: Option<Vec<NoteId>>,
    pub authors: Option<Vec<Pubkey>>,
    pub kinds: Option<Vec<u64>>,
    pub since: Option<u64>,
    pub limit: Option<u16>,
}

/// What a filter asks for, as plain values.
pub struct FilterView {
    pub ids: Option<Seq<NoteId>>,
    pub authors: Option<Seq<Pubkey>>,
    pub kinds: Option<Seq<u64>>,
    pub since: Option<u64>,
    pub limit: Option<u16>,
}

pub open spec fn opt_seq<T>(v: Option<Vec<T>>) -> Option<Seq<T>> {
    match v {
        Some(v) => Some(v@),
        None => None,
    }
}

impl View for Filter {
    type V = FilterView;

    open spec fn view(&self) -> FilterView {
        FilterView {
            ids: opt_seq(self.ids),
            authors: opt_seq(self.authors),
            kinds: opt_seq(self.kinds),
            since: self.since,
            limit: self.limit,
        }
    }
}

/// What each filter of a list asks for.
pub open spec fn filter_views(filters: Seq<Filter>) -> Seq<FilterView> {
    Seq::new(filters.len(), |i: int| filters[i]@)
}

/// The filter without any constraint.
pub open spec fn unconstrained() -> FilterView {
    FilterView { ids: None, authors: None, kinds: None, since: None, limit: None }
}

/// The lower time bound that resumes after a newest known note of time `t`.
pub open spec fn resume_since(t: u64) -> u64 {
    if t >= OVERLAP_SECONDS {
        (t - OVERLAP_SECONDS) as u64
    } else {
        0
    }
}

/// `f` with its lower time bound moved for the notes already held: left
/// alone when there are none.
pub open spec fn since_optimized(f: FilterView, notes: Seq<NoteRef>) -> FilterView {
    if notes.len() == 0 {
        f
    } else {
        FilterView { since: Some(resume_since(notes[0].created_at)), ..f }
    }
}

impl Filter {
    pub fn new() -> (f: Filter)
        ensures
            f@ == unconstrained(),
    {
        Filter { ids: None, authors: None, kinds: None, since: None, limit: None }
    }

    pub fn ids(self, ids: Vec<NoteId>) -> (f: Filter)
        ensures
            f@ == (FilterView { ids: Some(ids@), ..self@ }),
    {
        let mut f = self;
        f.ids = Some(ids);
        f
    }

    pub fn authors(self, authors: Vec<Pubkey>) -> (f: Filter)
        ensures
            f@ == (FilterView { authors: Some(authors@), ..self@ }),
    {
        let mut f = self;
        f.authors = Some(authors);
        f
    }

    pub fn kinds(self, kinds: Vec<u64>) -> (f: Filter)
        ensures
            f@ == (FilterView { kinds: Some(kinds@), ..self@ }),
    {
        let mut f = self;
        f.kinds = Some(kinds);
        f
    }

    pub fn since(self, since: u64) -> (f: Filter)
        ensures
            f@ == (FilterView { since: Some(since), ..self@ }),
    {
        let mut f = self;
        f.since = Some(since);
        f
    }

    pub fn limit(self, limit: u16) -> (f: Filter)
        ensures
            f@ == (FilterView { limit: Some(limit), ..self@ }),
    {
        let mut f = self;
        f.limit = Some(limit);
        f
    }

    /// A copy that asks for the same.
    pub fn duplicate(&self) -> (f: Filter)
        ensures
            f@ == self@,
    {
        let ids = match &self.ids {
            Some(v) => Some(copy_bytes_list(v)),
            None => None,
        };
        let authors = match &self.authors {
            Some(v) => Some(copy_bytes_list(v)),
            None => None,
        };
        let kinds = match &self.kinds {
            Some(v) => Some(copy_kinds(v)),
            None => None,
        };
        Filter { ids, authors, kinds, since: self.since, limit: self.limit }
    }
}

fn copy_kinds(list: &Vec<u64>) -> (out: Vec<u64>)
    ensures
        out@ == list@,
{
    let mut out: Vec<u64> = Vec::new();
    let mut i: usize = 0;
    while i < list.len()
        invariant
            i <= list.len(),
            out@ == list@.take(i as int),
        decreases list.len() - i,
    {
        out.push(list[i]);
        i = i + 1;
    }
    out
}

/// Moves the filter's lower time bound to just before the newest note of
/// `notes`, which lists newest first, so that a relay is not asked again for
/// history already held. With no notes the filter is left as it is.
pub fn since_optimize_filter(filter: &mut Filter, notes: &[NoteRef])
    ensures
        final(filter)@ == since_optimized(old(filter)@, notes@),
{
    if notes.len() == 0 {
        return ;
    }
    let latest = notes[0];
    let since = if latest.created_at >= OVERLAP_SECONDS {
        latest.created_at - OVERLAP_SECONDS
    } else {
        0
    };
    filter.since = Some(since);
}

} // verus!
