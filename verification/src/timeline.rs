//! Timelines and their views: the ordered, deduplicated sequences that a
//! subscription is shown as, each with a cursor.

use crate::filter::{filter_views, Filter, FilterView};
use crate::merge::{front_growth, is_view, lemma_merged_grows, merge_batch, merged};
use crate::note::{CachedNote, Note};
use crate::noteref::NoteRef;
use vstd::prelude::*;

verus! {

/// Which notes of a subscription a view admits.
#[derive(Copy, Clone, Eq, PartialEq, Debug, Structural)]
pub enum ViewFilter {
    /// Notes that answer no other note.
    Notes,
    /// Every note of the subscription.
    NotesAndReplies,
}

impl Default for ViewFilter {
    fn default() -> (f: ViewFilter)
        ensures
            f == ViewFilter::NotesAndReplies,
    {
        ViewFilter::NotesAndReplies
    }
}

impl ViewFilter {
    pub fn name(&self) -> (s: &'static str)
        ensures
            s@ == (match *self {
                ViewFilter::Notes => "Notes"@,
                ViewFilter::NotesAndReplies => "Notes & Replies"@,
            }),
    {
        match self {
            ViewFilter::Notes => "Notes",
            ViewFilter::NotesAndReplies => "Notes & Replies",
        }
    }

    pub open spec fn spec_index(&self) -> usize {
        match *self {
            ViewFilter::Notes => 0,
            ViewFilter::NotesAndReplies => 1,
        }
    }

    /// The place of this filter's view among a timeline's views.
    #[verifier::when_used_as_spec(spec_index)]
    pub fn index(&self) -> (i: usize)
        ensures
            i == self.spec_index(),
    {
        match self {
            ViewFilter::Notes => 0,
            ViewFilter::NotesAndReplies => 1,
        }
    }

    /// The membership predicate of the view of notes: the note answers
    /// nothing.
    pub fn filter_notes(cache: &CachedNote, note: &Note) -> (b: bool)
        ensures
            b == !cache.reply.is_reply(),
    {
        !cache.reply.is_reply()
    }

    /// Whether a view with this filter admits a note with this derived data.
    pub open spec fn admits(&self, cache: CachedNote) -> bool {
        match *self {
            ViewFilter::Notes => !cache.reply.is_reply(),
            ViewFilter::NotesAndReplies => true,
        }
    }

    /// The membership predicate of this filter's view.
    pub fn filter(&self, cache: &CachedNote, note: &Note) -> (b: bool)
        ensures
            b == self.admits(*cache),
    {
        match self {
            ViewFilter::Notes => ViewFilter::filter_notes(cache, note),
            ViewFilter::NotesAndReplies => true,
        }
    }
}

/// The cursor after a step towards the end of a list of `len` items: it
/// never leaves the list.
pub open spec fn stepped_down(selection: i32, len: nat) -> i32 {
    if selection + 1 < len && selection < i32::MAX {
        (selection + 1) as i32
    } else {
        selection
    }
}

/// The cursor after a step towards the start of a list.
pub open spec fn stepped_up(selection: i32) -> i32 {
    if selection >= 1 {
        (selection - 1) as i32
    } else {
        selection
    }
}

/// A cursor that points into a list of `len` items, or at the top of an
/// empty one.
pub open spec fn cursor_ok(selection: i32, len: nat) -> bool {
    0 <= selection && (selection == 0 || selection < len)
}

/// The state of a view: its notes, newest first, its cursor and its filter.
pub struct ViewModel {
    pub notes: Seq<NoteRef>,
    pub selection: i32,
    pub filter: ViewFilter,
}

impl ViewModel {
    /// The notes are in strict view order with no handle twice, and the
    /// cursor is valid for them.
    pub open spec fn wf(self) -> bool {
        is_view(self.notes) && cursor_ok(self.selection, self.notes.len())
    }

    pub open spec fn select_down(self) -> ViewModel {
        ViewModel { selection: stepped_down(self.selection, self.notes.len()), ..self }
    }

    pub open spec fn select_up(self) -> ViewModel {
        ViewModel { selection: stepped_up(self.selection), ..self }
    }

    /// The view after a batch was merged into it; the cursor keeps its index.
    pub open spec fn merge(self, incoming: Seq<NoteRef>) -> ViewModel {
        ViewModel { notes: merged(self.notes, incoming), ..self }
    }
}

/// One ordered, deduplicated projection of a timeline's notes.
#[derive(Debug, Clone, PartialEq, Eq)]
pub struct TimelineView {
    pub notes: Vec<NoteRef>,
    pub selection: i32,
    pub filter: ViewFilter,
}

impl View for TimelineView {
    type V = ViewModel;

    open spec fn view(&self) -> ViewModel {
        ViewModel { notes: self.notes@, selection: self.selection, filter: self.filter }
    }
}

impl TimelineView {
    pub fn new(filter: ViewFilter) -> (v: TimelineView)
        ensures
            v@.wf(),
            v@ == (ViewModel { notes: Seq::empty(), selection: 0, filter }),
    {
        TimelineView { notes: Vec::new(), selection: 0, filter }
    }

    /// Moves the cursor one note down, unless it is on the last one.
    pub fn select_down(&mut self)
        requires
            old(self)@.wf(),
        ensures
            final(self)@ == old(self)@.select_down(),
            final(self)@.wf(),
    {
        if self.selection < i32::MAX && (self.selection as usize) + 1 < self.notes.len() {
            self.selection = self.selection + 1;
        }
    }

    /// Moves the cursor one note up, unless it is on the first one.
    pub fn select_up(&mut self)
        requires
            old(self)@.wf(),
        ensures
            final(self)@ == old(self)@.select_up(),
            final(self)@.wf(),
    {
        if self.selection >= 1 {
            self.selection = self.selection - 1;
        }
    }

    /// Merges a batch of references into the view and returns how many items
    /// were inserted at its front.
    pub fn merge(&mut self, incoming: &[NoteRef]) -> (prepended: usize)
        requires
            old(self)@.wf(),
        ensures
            final(self)@ == old(self)@.merge(incoming@),
            final(self)@.wf(),
            prepended == front_growth(old(self)@.notes, final(self)@.notes),
    {
        let (notes, prepended) = merge_batch(self.notes.as_slice(), incoming);
        proof {
            lemma_merged_grows(self.notes@, incoming@);
        }
        self.notes = notes;
        prepended
    }
}

/// The state of a timeline.
pub struct TimelineModel {
    pub filter: Seq<FilterView>,
    pub views: Seq<ViewModel>,
    pub selected_view: i32,
    pub subscription: Option<u64>,
}

/// The states of a list of views.
pub open spec fn view_models(views: Seq<TimelineView>) -> Seq<ViewModel> {
    Seq::new(views.len(), |i: int| views[i]@)
}

impl TimelineModel {
    /// There is a filter; the views are the one of notes and the one of
    /// notes and replies, in that order, and both are well formed; one of
    /// them is selected.
    pub open spec fn wf(self) -> bool {
        &&& self.filter.len() >= 1
        &&& self.views.len() == 2
        &&& self.views[0].filter == ViewFilter::Notes
        &&& self.views[1].filter == ViewFilter::NotesAndReplies
        &&& self.views[0].wf()
        &&& self.views[1].wf()
        &&& 0 <= self.selected_view < 2
    }

    /// The notes of the view of a filter.
    pub open spec fn notes(self, view: ViewFilter) -> Seq<NoteRef> {
        self.views[view.index() as int].notes
    }

    pub open spec fn current_view(self) -> ViewModel {
        self.views[self.selected_view as int]
    }

    /// The timeline with view `i` replaced.
    pub open spec fn with_view(self, i: int, v: ViewModel) -> TimelineModel {
        TimelineModel { views: self.views.update(i, v), ..self }
    }

    pub open spec fn select_down(self) -> TimelineModel {
        self.with_view(self.selected_view as int, self.current_view().select_down())
    }

    pub open spec fn select_up(self) -> TimelineModel {
        self.with_view(self.selected_view as int, self.current_view().select_up())
    }

    /// The timeline after `all` was merged into the view of notes and
    /// replies and `plain` into the view of notes.
    pub open spec fn merge(self, plain: Seq<NoteRef>, all: Seq<NoteRef>) -> TimelineModel {
        TimelineModel { views: seq![self.views[0].merge(plain), self.views[1].merge(all)], ..self }
    }
}

/// A feed backed by one subscription: its filters and its two views.
#[derive(Debug, Clone, PartialEq, Eq)]
pub struct Timeline {
    pub filter: Vec<Filter>,
    pub views: Vec<TimelineView>,
    pub selected_view: i32,
    /// The subscription with the local store, once there is one.
    pub subscription: Option<u64>,
}

impl Timeline {
    /// The state of the timeline.
    pub open spec fn model(&self) -> TimelineModel {
        TimelineModel {
            filter: filter_views(self.filter@),
            views: view_models(self.views@),
            selected_view: self.selected_view,
            subscription: self.subscription,
        }
    }

    /// A timeline over `filter` with empty views and no subscription yet.
    pub fn new(filter: Vec<Filter>) -> (t: Timeline)
        requires
            filter@.len() >= 1,
        ensures
            t.model().wf(),
            t.filter == filter,
            t.model().views[0].notes.len() == 0,
            t.model().views[1].notes.len() == 0,
            t.model().views[0].selection == 0,
            t.model().views[1].selection == 0,
            t.model().selected_view == 0,
            t.model().subscription.is_none(),
    {
        let notes = TimelineView::new(ViewFilter::Notes);
        let replies = TimelineView::new(ViewFilter::NotesAndReplies);
        let mut views: Vec<TimelineView> = Vec::new();
        views.push(notes);
        views.push(replies);
        Timeline { filter, views, selected_view: 0, subscription: None }
    }

    pub fn current_view(&self) -> (v: &TimelineView)
        requires
            self.model().wf(),
        ensures
            v@ == self.model().current_view(),
    {
        &self.views[self.selected_view as usize]
    }

    pub fn current_view_mut(&mut self) -> (v: &mut TimelineView)
        requires
            old(self).model().wf(),
        ensures
            v@ == old(self).model().current_view(),
            final(self).model() == old(self).model().with_view(old(self).selected_view as int, final(v)@),
    {
        let i = self.selected_view as usize;
        let ghost before = self.views@;
        let v = &mut self.views[i];
        proof {
            assert(view_models(before.update(i as int, *final(v))) =~= view_models(before).update(
                i as int,
                final(v)@,
            ));
        }
        v
    }

    /// The notes of one view, newest first.
    pub fn notes(&self, view: ViewFilter) -> (r: &[NoteRef])
        requires
            self.model().wf(),
        ensures
            r@ == self.model().notes(view),
    {
        self.views[view.index()].notes.as_slice()
    }

    pub fn view(&self, view: ViewFilter) -> (v: &TimelineView)
        requires
            self.model().wf(),
        ensures
            v@ == self.model().views[view.index() as int],
    {
        &self.views[view.index()]
    }

    pub fn view_mut(&mut self, view: ViewFilter) -> (v: &mut TimelineView)
        requires
            old(self).model().wf(),
        ensures
            v@ == old(self).model().views[view.index() as int],
            final(self).model() == old(self).model().with_view(view.index() as int, final(v)@),
    {
        let i = view.index();
        let ghost before = self.views@;
        let v = &mut self.views[i];
        proof {
            assert(view_models(before.update(i as int, *final(v))) =~= view_models(before).update(
                i as int,
                final(v)@,
            ));
        }
        v
    }

    /// Moves the cursor of the selected view one note down.
    pub fn select_down(&mut self)
        requires
            old(self).model().wf(),
        ensures
            final(self).model() == old(self).model().select_down(),
            final(self).model().wf(),
    {
        self.current_view_mut().select_down();
    }

    /// Moves the cursor of the selected view one note up.
    pub fn select_up(&mut self)
        requires
            old(self).model().wf(),
        ensures
            final(self).model() == old(self).model().select_up(),
            final(self).model().wf(),
    {
        self.current_view_mut().select_up();
    }

    /// Merges `all` into the view of notes and replies and `plain` into the
    /// view of notes. Returns, for the two views in their order, how many
    /// items were inserted at the front.
    pub fn merge(&mut self, plain: &[NoteRef], all: &[NoteRef]) -> (prepended: (usize, usize))
        requires
            old(self).model().wf(),
        ensures
            final(self).model() == old(self).model().merge(plain@, all@),
            final(self).model().wf(),
            prepended.0 == front_growth(old(self).model().views[0].notes, final(self).model().views[0].notes),
            prepended.1 == front_growth(old(self).model().views[1].notes, final(self).model().views[1].notes),
    {
        let ghost before = self.model();
        let n_all = self.view_mut(ViewFilter::NotesAndReplies).merge(all);
        let n_plain = self.view_mut(ViewFilter::Notes).merge(plain);
        assert(self.model().views =~= before.merge(plain@, all@).views);
        (n_plain, n_all)
    }
}

} // verus!
