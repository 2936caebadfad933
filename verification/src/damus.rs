//! The state of the deck: its timelines, the note cache and the cursor
//! that keyboard navigation moves.

use crate::note::CachedNote;
use crate::notecache::NoteCache;
use crate::noteref::NoteKey;
use crate::timeline::{stepped_down, stepped_up, Timeline, TimelineModel};
use vstd::prelude::*;

verus! {

/// Whether the deck has set up its relays and subscriptions yet.
#[derive(Debug, Eq, PartialEq, Clone, Copy, Structural)]
pub enum DamusState {
    Initializing,
    Initialized,
}

/// The state of the deck, as plain values.
pub struct DamusModel {
    pub state: DamusState,
    pub note_cache: Map<NoteKey, CachedNote>,
    pub textmode: bool,
    pub timelines: Seq<TimelineModel>,
    pub selected_timeline: i32,
}

impl DamusModel {
    /// There is a timeline, every timeline is well formed, and one of them
    /// is selected.
    pub open spec fn wf(self) -> bool {
        &&& self.timelines.len() >= 1
        &&& forall|i: int| 0 <= i < self.timelines.len() ==> (#[trigger] self.timelines[i]).wf()
        &&& 0 <= self.selected_timeline < self.timelines.len()
    }

    pub open spec fn selected(self) -> TimelineModel {
        self.timelines[self.selected_timeline as int]
    }

    /// The deck with timeline `i` replaced.
    pub open spec fn with_timeline(self, i: int, t: TimelineModel) -> DamusModel {
        DamusModel { timelines: self.timelines.update(i, t), ..self }
    }

    pub open spec fn select_down(self) -> DamusModel {
        self.with_timeline(self.selected_timeline as int, self.selected().select_down())
    }

    pub open spec fn select_up(self) -> DamusModel {
        self.with_timeline(self.selected_timeline as int, self.selected().select_up())
    }

    pub open spec fn select_left(self) -> DamusModel {
        DamusModel { selected_timeline: stepped_up(self.selected_timeline), ..self }
    }

    pub open spec fn select_right(self) -> DamusModel {
        DamusModel {
            selected_timeline: stepped_down(self.selected_timeline, self.timelines.len()),
            ..self
        }
    }

    /// The deck after one key event.
    pub open spec fn after_key(self, event: KeyEvent) -> DamusModel {
        if !event.pressed {
            self
        } else {
            match event.key {
                Key::J => self.select_down(),
                Key::K => self.select_up(),
                Key::H => self.select_left(),
                Key::L => self.select_left(),
                _ => self,
            }
        }
    }

    /// The deck after a run of key events, in their order.
    pub open spec fn after_keys(self, events: Seq<KeyEvent>) -> DamusModel
        decreases events.len(),
    {
        if events.len() == 0 {
            self
        } else {
            self.after_keys(events.drop_last()).after_key(events.last())
        }
    }
}

/// The keys that the deck reacts to.
#[derive(Debug, Eq, PartialEq, Clone, Copy, Structural)]
pub enum Key {
    Equals,
    Minus,
    J,
    K,
    H,
    L,
    Other,
}

/// A key that went down or up.
#[derive(Debug, Eq, PartialEq, Clone, Copy, Structural)]
pub struct KeyEvent {
    pub key: Key,
    pub pressed: bool,
}

/// What a key event asks of the rendering context.
#[derive(Debug, Eq, PartialEq, Clone, Copy, Structural)]
pub enum ContextAction {
    /// Show more pixels per point.
    ZoomIn,
    /// Show fewer pixels per point.
    ZoomOut,
}

/// What one key event asks of the rendering context.
pub open spec fn key_action(event: KeyEvent) -> Option<ContextAction> {
    if !event.pressed {
        None
    } else {
        match event.key {
            Key::Equals => Some(ContextAction::ZoomIn),
            Key::Minus => Some(ContextAction::ZoomOut),
            _ => None,
        }
    }
}

/// What a run of key events asks of the rendering context: what the last
/// event with a request asks.
pub open spec fn keys_action(events: Seq<KeyEvent>) -> Option<ContextAction>
    decreases events.len(),
{
    if events.len() == 0 {
        None
    } else {
        match key_action(events.last()) {
            Some(a) => Some(a),
            None => keys_action(events.drop_last()),
        }
    }
}

/// The deck: the timelines side by side, the cache of derived note data,
/// and which timeline the keyboard navigates.
pub struct Damus {
    pub state: DamusState,
    pub note_cache: NoteCache,
    pub textmode: bool,
    pub timelines: Vec<Timeline>,
    pub selected_timeline: i32,
}

/// The states of a list of timelines.
pub open spec fn timeline_models(timelines: Seq<Timeline>) -> Seq<TimelineModel> {
    Seq::new(timelines.len(), |i: int| timelines[i].model())
}

impl Damus {
    /// The state of the deck.
    pub open spec fn model(&self) -> DamusModel {
        DamusModel {
            state: self.state,
            note_cache: self.note_cache@,
            textmode: self.textmode,
            timelines: timeline_models(self.timelines@),
            selected_timeline: self.selected_timeline,
        }
    }

    /// A deck over `timelines` that has yet to set itself up; the first
    /// timeline is selected and nothing is cached.
    pub fn new(timelines: Vec<Timeline>) -> (d: Damus)
        requires
            timelines@.len() >= 1,
            forall|i: int| 0 <= i < timelines@.len() ==> (#[trigger] timelines@[i]).model().wf(),
        ensures
            d.model().wf(),
            d.model() == (DamusModel {
                state: DamusState::Initializing,
                note_cache: Map::empty(),
                textmode: false,
                timelines: timeline_models(timelines@),
                selected_timeline: 0,
            }),
    {
        let d = Damus {
            state: DamusState::Initializing,
            note_cache: NoteCache::new(),
            textmode: false,
            timelines,
            selected_timeline: 0,
        };
        d
    }

    pub fn note_cache_mut(&mut self) -> (c: &mut NoteCache)
        ensures
            *c == old(self).note_cache,
            final(self).model() == (DamusModel {
                note_cache: final(c)@,
                ..old(self).model()
            }),
    {
        &mut self.note_cache
    }

    pub fn note_cache(&self) -> (c: &NoteCache)
        ensures
            c@ == self.model().note_cache,
    {
        &self.note_cache
    }

    /// The timeline that the keyboard navigates.
    pub fn selected_timeline(&mut self) -> (t: &mut Timeline)
        requires
            old(self).model().wf(),
        ensures
            t.model() == old(self).model().selected(),
            final(self).model() == old(self).model().with_timeline(
                old(self).selected_timeline as int,
                final(t).model(),
            ),
    {
        let i = self.selected_timeline as usize;
        let ghost before = self.timelines@;
        let t = &mut self.timelines[i];
        proof {
            assert(timeline_models(before.update(i as int, *final(t))) =~= timeline_models(
                before,
            ).update(i as int, final(t).model()));
        }
        t
    }

    /// Moves the cursor of the selected timeline's view one note down.
    pub fn select_down(&mut self)
        requires
            old(self).model().wf(),
        ensures
            final(self).model() == old(self).model().select_down(),
            final(self).model().wf(),
    {
        self.selected_timeline().select_down();
    }

    /// Moves the cursor of the selected timeline's view one note up.
    pub fn select_up(&mut self)
        requires
            old(self).model().wf(),
        ensures
            final(self).model() == old(self).model().select_up(),
            final(self).model().wf(),
    {
        self.selected_timeline().select_up();
    }

    /// Selects the timeline to the left, unless the first one is selected.
    pub fn select_left(&mut self)
        requires
            old(self).model().wf(),
        ensures
            final(self).model() == old(self).model().select_left(),
            final(self).model().wf(),
    {
        if self.selected_timeline - 1 < 0 {
            return ;
        }
        self.selected_timeline = self.selected_timeline - 1;
    }

    /// Selects the timeline to the right, unless the last one is selected.
    pub fn select_right(&mut self)
        requires
            old(self).model().wf(),
        ensures
            final(self).model() == old(self).model().select_right(),
            final(self).model().wf(),
    {
        if self.selected_timeline == i32::MAX || (self.selected_timeline as usize) + 1
            >= self.timelines.len() {
            return ;
        }
        self.selected_timeline = self.selected_timeline + 1;
    }
}

/// Every navigation step keeps the deck well formed: each cursor stays valid
/// for the list it points into.
pub proof fn lemma_keys_keep_wf(d: DamusModel, events: Seq<KeyEvent>)
    requires
        d.wf(),
    ensures
        d.after_keys(events).wf(),
        d.after_keys(events).timelines.len() == d.timelines.len(),
    decreases events.len(),
{
    if events.len() > 0 {
        lemma_keys_keep_wf(d, events.drop_last());
    }
}

/// Applies the key events of one frame in their order: `J` and `K` move the
/// cursor of the selected timeline, `H` and `L` select the timeline to the
/// left. Returns what the last of the zoom keys asks of the rendering
/// context, if one was pressed.
pub fn handle_key_events(events: &[KeyEvent], damus: &mut Damus) -> (action: Option<ContextAction>)
    requires
        old(damus).model().wf(),
    ensures
        final(damus).model() == old(damus).model().after_keys(events@),
        final(damus).model().wf(),
        action == keys_action(events@),
{
    let mut context_action: Option<ContextAction> = None;
    let mut i: usize = 0;
    while i < events.len()
        invariant
            i <= events.len(),
            damus.model().wf(),
            damus.model() == old(damus).model().after_keys(events@.take(i as int)),
            context_action == keys_action(events@.take(i as int)),
        decreases events.len() - i,
    {
        let event = events[i];
        proof {
            assert(events@.take(i + 1).drop_last() =~= events@.take(i as int));
        }
        if event.pressed {
            match event.key {
                Key::Equals => {
                    context_action = Some(ContextAction::ZoomIn);
                },
                Key::Minus => {
                    context_action = Some(ContextAction::ZoomOut);
                },
                Key::J => {
                    damus.select_down();
                },
                Key::K => {
                    damus.select_up();
                },
                Key::H => {
                    damus.select_left();
                },
                Key::L => {
                    damus.select_left();
                },
                Key::Other => {},
            }
        }
        i = i + 1;
    }
    assert(events@.take(events@.len() as int) =~= events@);
    context_action
}

/// Starts an update of the deck. Returns whether this is the first one, in
/// which case the caller connects the relays and opens the subscriptions
/// before it goes on; the deck counts as set up from here on.
pub fn update_damus(damus: &mut Damus) -> (first: bool)
    ensures
        first == (old(damus).state == DamusState::Initializing),
        final(damus).model() == (DamusModel {
            state: DamusState::Initialized,
            ..old(damus).model()
        }),
{
    let first = damus.state == DamusState::Initializing;
    damus.state = DamusState::Initialized;
    first
}

} // verus!
