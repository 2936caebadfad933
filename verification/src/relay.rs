//! The relay event router: what the core does about each event of a relay
//! connection, and about the notes that a tick finds new in the store.

use crate::damus::{Damus, DamusModel};
use crate::error::Error;
use crate::filter::{filter_views, since_optimize_filter, since_optimized, Filter, FilterView};
use crate::merge::front_growth;
use crate::note::Note;
use crate::poll::{poll_notes_for_timeline, scan_all, Inserted};
use crate::resolve::{all_found, all_refs, cache_with_refs, get_unknown_ids, unknown_of_refs};
use crate::store::Snapshot;
use crate::subid::{
    classify, initial_label, initial_subid, sub_kind, unknown_ids_label, unknown_ids_subid,
    SubKind,
};
use crate::timeline::{TimelineModel, ViewFilter};
use crate::unknowns::{get_unknown_ids_filter, unknown_ids_filter, UnknownId, UnknownIds};
use vstd::prelude::*;
use vstd::string::StringExecFns;

verus! {

/// A message from the core to a relay.
#[derive(Debug, Clone, PartialEq, Eq)]
pub enum ClientMessage {
    /// Opens the subscription `sub_id` over `filters`.
    Req { sub_id: String, filters: Vec<Filter> },
    /// Closes the subscription `sub_id`.
    Close { sub_id: String },
}

/// What a message to a relay says, as plain values.
pub enum ClientMessageView {
    Req { sub_id: Seq<char>, filters: Seq<FilterView> },
    Close { sub_id: Seq<char> },
}

impl View for ClientMessage {
    type V = ClientMessageView;

    open spec fn view(&self) -> ClientMessageView {
        match *self {
            ClientMessage::Req { sub_id, filters } => ClientMessageView::Req {
                sub_id: sub_id@,
                filters: filter_views(filters@),
            },
            ClientMessage::Close { sub_id } => ClientMessageView::Close { sub_id: sub_id@ },
        }
    }
}

impl ClientMessage {
    pub fn req(sub_id: String, filters: Vec<Filter>) -> (m: ClientMessage)
        ensures
            m@ == (ClientMessageView::Req { sub_id: sub_id@, filters: filter_views(filters@) }),
    {
        ClientMessage::Req { sub_id, filters }
    }

    pub fn close(sub_id: String) -> (m: ClientMessage)
        ensures
            m@ == (ClientMessageView::Close { sub_id: sub_id@ }),
    {
        ClientMessage::Close { sub_id }
    }
}

/// A message from a relay.
#[derive(Debug, Clone, PartialEq, Eq)]
pub enum RelayMessage {
    /// The relay's answer to a record that was published.
    OK { event_id: String, status: bool, message: String },
    /// The stored records of the subscription have all been sent.
    Eose(String),
    /// A record of the subscription, as the relay sent it.
    Event(String, String),
    /// A remark for a human reader.
    Notice(String),
}

/// What happened on a relay connection.
#[derive(Debug, Clone, PartialEq, Eq)]
pub enum RelayEvent {
    Opened,
    Closed,
    /// The connection reported an error.
    Error,
    /// The connection delivered something that is no relay message.
    Other,
    Message(RelayMessage),
}

/// What the caller is to do about an event.
#[derive(Debug, Clone, PartialEq, Eq)]
pub enum Reaction {
    /// Send the message to the relay.
    Send { relay: String, msg: ClientMessage },
    /// Hand the raw record to the store.
    Ingest { payload: String },
    /// Nothing but a line in the log.
    Noted,
    /// Warn that a relay ended the stored events of a subscription that the
    /// core has not opened.
    Anomaly { sub_id: String },
    /// Log that the event could not be dealt with.
    Failed(Error),
}

/// What a reaction asks for, as plain values.
pub enum ReactionView {
    Send { relay: Seq<char>, msg: ClientMessageView },
    Ingest { payload: Seq<char> },
    Noted,
    Anomaly { sub_id: Seq<char> },
    Failed(Error),
}

impl View for Reaction {
    type V = ReactionView;

    open spec fn view(&self) -> ReactionView {
        match *self {
            Reaction::Send { relay, msg } => ReactionView::Send { relay: relay@, msg: msg@ },
            Reaction::Ingest { payload } => ReactionView::Ingest { payload: payload@ },
            Reaction::Noted => ReactionView::Noted,
            Reaction::Anomaly { sub_id } => ReactionView::Anomaly { sub_id: sub_id@ },
            Reaction::Failed(e) => ReactionView::Failed(e),
        }
    }
}

/// What each reaction of a list asks for.
pub open spec fn reaction_views(reactions: Seq<Reaction>) -> Seq<ReactionView> {
    Seq::new(reactions.len(), |i: int| reactions[i]@)
}

impl TimelineModel {
    /// The filters that a relay is asked with when its connection opens:
    /// the timeline's filters, each resumed after the newest note that the
    /// view of notes and replies holds.
    pub open spec fn resumed_filters(self) -> Seq<FilterView> {
        Seq::new(self.filter.len(), |j: int| since_optimized(self.filter[j], self.views[1].notes))
    }
}

/// The subscriptions that a relay is sent when its connection opens: one
/// for each timeline, numbered from one.
pub open spec fn initial_requests(relay: Seq<char>, timelines: Seq<TimelineModel>) -> Seq<
    ReactionView,
> {
    Seq::new(
        timelines.len(),
        |i: int|
            ReactionView::Send {
                relay,
                msg: ClientMessageView::Req {
                    sub_id: initial_label((i + 1) as nat),
                    filters: timelines[i].resumed_filters(),
                },
            },
    )
}

/// Builds the subscriptions for a relay whose connection has just opened.
pub fn send_initial_filters(damus: &Damus, relay_url: &str) -> (out: Vec<Reaction>)
    requires
        damus.model().wf(),
    ensures
        reaction_views(out@) == initial_requests(relay_url@, damus.model().timelines),
{
    let mut out: Vec<Reaction> = Vec::new();
    let mut c: usize = 0;
    while c < damus.timelines.len()
        invariant
            c <= damus.timelines.len(),
            damus.model().wf(),
            out@.len() == c,
            forall|i: int|
                0 <= i < c ==> (#[trigger] out@[i])@ == initial_requests(
                    relay_url@,
                    damus.model().timelines,
                )[i],
        decreases damus.timelines.len() - c,
    {
        let timeline = &damus.timelines[c];
        assert(timeline.model() == damus.model().timelines[c as int]);
        let notes = timeline.notes(ViewFilter::NotesAndReplies);
        let mut filters: Vec<Filter> = Vec::new();
        let mut j: usize = 0;
        while j < timeline.filter.len()
            invariant
                j <= timeline.filter.len(),
                filters@.len() == j,
                notes@ == timeline.model().views[1].notes,
                forall|k: int|
                    0 <= k < j ==> (#[trigger] filters@[k])@ == since_optimized(
                        timeline.filter@[k]@,
                        notes@,
                    ),
            decreases timeline.filter.len() - j,
        {
            let mut f = timeline.filter[j].duplicate();
            since_optimize_filter(&mut f, notes);
            filters.push(f);
            j = j + 1;
        }
        assert(filter_views(filters@) =~= timeline.model().resumed_filters());
        let msg = ClientMessage::req(initial_subid(c + 1), filters);
        out.push(Reaction::Send { relay: String::from_str(relay_url), msg });
        c = c + 1;
    }
    out
}

/// The request that resolves the identities `ids`, if there are any.
pub open spec fn request_for(ids: Seq<UnknownId>) -> Option<ClientMessageView> {
    match unknown_ids_filter(ids) {
        Some(filters) => Some(ClientMessageView::Req { sub_id: unknown_ids_label(), filters }),
        None => None,
    }
}

/// `msg` is what resolves the set `unknown`: the request for its
/// identities, each named once, in some order.
pub open spec fn resolves(msg: Option<ClientMessageView>, unknown: Set<UnknownId>) -> bool {
    exists|ids: Seq<UnknownId>|
        ids.no_duplicates() && ids.to_set() == unknown && msg == #[trigger] request_for(ids)
}

/// A request goes out exactly when there is something to resolve: with
/// nothing unresolved, no follow-up is issued.
pub proof fn lemma_request_iff_unknown(msg: Option<ClientMessageView>, unknown: Set<UnknownId>)
    requires
        resolves(msg, unknown),
    ensures
        msg.is_none() <==> unknown == Set::<UnknownId>::empty(),
        msg matches Some(m) ==> m is Req && m->Req_sub_id == unknown_ids_label(),
{
    let ids = choose|ids: Seq<UnknownId>|
        ids.no_duplicates() && ids.to_set() == unknown && msg == #[trigger] request_for(ids);
    if ids.len() == 0 {
        assert(ids.to_set() =~= Set::<UnknownId>::empty());
    } else {
        assert(ids.to_set().contains(ids[0]));
    }
}

/// The request for a list of unresolved identities.
fn request_unknown(ids: &[UnknownId]) -> (msg: Option<ClientMessage>)
    ensures
        (match msg {
            Some(m) => Some(m@),
            None => None,
        }) == request_for(ids@),
{
    match get_unknown_ids_filter(ids) {
        Some(filters) => Some(ClientMessage::req(unknown_ids_subid(), filters)),
        None => None,
    }
}

/// What a message that may be missing says.
pub open spec fn message_view(msg: Option<ClientMessage>) -> Option<ClientMessageView> {
    match msg {
        Some(m) => Some(m@),
        None => None,
    }
}

/// How the end of a subscription's stored events is dealt with. For a
/// timeline's subscription the unresolved identities of all timelines are
/// gathered, and a request for them is the answer if there are any. For a
/// resolving request the answer closes it. For any other id nothing is
/// sent and nothing changes. The pass fails only where the store lacks a
/// note that a timeline lists.
pub open spec fn eose_outcome(
    before: DamusModel,
    store: &Snapshot,
    subid: Seq<char>,
    after: DamusModel,
    r: Result<Option<ClientMessageView>, Error>,
) -> bool {
    match sub_kind(subid) {
        SubKind::Initial => {
            let refs = all_refs(before.timelines);
            if all_found(store, refs) {
                &&& after == (DamusModel {
                    note_cache: cache_with_refs(store, before.note_cache, refs),
                    ..before
                })
                &&& r matches Ok(msg)
                &&& resolves(msg, unknown_of_refs(store, before.note_cache, refs))
            } else {
                &&& after == before
                &&& r == Err::<Option<ClientMessageView>, Error>(Error::StoreQueryFailure)
            }
        },
        SubKind::UnknownIds => {
            &&& after == before
            &&& r == Ok::<Option<ClientMessageView>, Error>(
                Some(ClientMessageView::Close { sub_id: unknown_ids_label() }),
            )
        },
        SubKind::Other => {
            &&& after == before
            &&& r == Ok::<Option<ClientMessageView>, Error>(None)
        },
    }
}

/// The end of stored events fails only for a timeline's subscription, and
/// only where the store lacks a listed note; for an id that is none of the
/// core's it succeeds with nothing sent and nothing changed.
pub proof fn lemma_eose_failure(
    before: DamusModel,
    store: &Snapshot,
    subid: Seq<char>,
    after: DamusModel,
    r: Result<Option<ClientMessageView>, Error>,
)
    requires
        eose_outcome(before, store, subid, after, r),
    ensures
        r is Err <==> sub_kind(subid) == SubKind::Initial && !all_found(
            store,
            all_refs(before.timelines),
        ),
        r is Err ==> r->Err_0 == Error::StoreQueryFailure && after == before,
        sub_kind(subid) == SubKind::Other ==> r == Ok::<Option<ClientMessageView>, Error>(None)
            && after == before,
{
}

/// What a result with a message that may be missing says.
pub open spec fn result_view(r: Result<Option<ClientMessage>, Error>) -> Result<
    Option<ClientMessageView>,
    Error,
> {
    match r {
        Ok(msg) => Ok(message_view(msg)),
        Err(e) => Err(e),
    }
}

/// Deals with the end of the stored events of the subscription `subid`.
/// Returns the message that is to go to the relay that sent the end, if
/// there is one.
pub fn handle_eose(damus: &mut Damus, store: &Snapshot, subid: &str) -> (r: Result<
    Option<ClientMessage>,
    Error,
>)
    requires
        old(damus).model().wf(),
    ensures
        final(damus).model().wf(),
        eose_outcome(old(damus).model(), store, subid@, final(damus).model(), result_view(r)),
{
    match classify(subid) {
        SubKind::Initial => {
            let ids = match get_unknown_ids(damus, store) {
                Ok(ids) => ids,
                Err(e) => {
                    return Err(e);
                },
            };
            let msg = request_unknown(ids.as_slice());
            Ok(msg)
        },
        SubKind::UnknownIds => {
            let msg = ClientMessage::close(unknown_ids_subid());
            Ok(Some(msg))
        },
        SubKind::Other => Ok(None),
    }
}

/// How a message of a relay is dealt with: a record goes to the store, the
/// end of stored events is answered as `eose_outcome` says, or reported as
/// an anomaly where the subscription is none of the core's, and anything
/// else is only noted.
pub open spec fn message_outcome(
    before: DamusModel,
    store: &Snapshot,
    relay: Seq<char>,
    msg: RelayMessage,
    after: DamusModel,
    reaction: ReactionView,
) -> bool {
    match msg {
        RelayMessage::Event(_, payload) => after == before && reaction == (ReactionView::Ingest {
            payload: payload@,
        }),
        RelayMessage::Notice(_) => after == before && reaction == ReactionView::Noted,
        RelayMessage::OK { .. } => after == before && reaction == ReactionView::Noted,
        RelayMessage::Eose(subid) => if sub_kind(subid@) == SubKind::Other {
            after == before && reaction == (ReactionView::Anomaly { sub_id: subid@ })
        } else {
            exists|r: Result<Option<ClientMessageView>, Error>|
                #[trigger] eose_outcome(before, store, subid@, after, r) && reaction == (match r {
                    Ok(Some(m)) => ReactionView::Send { relay, msg: m },
                    Ok(None) => ReactionView::Noted,
                    Err(e) => ReactionView::Failed(e),
                })
        },
    }
}

/// Deals with one message of the relay `relay`.
pub fn process_message(damus: &mut Damus, store: &Snapshot, relay: &str, msg: &RelayMessage) -> (reaction:
    Reaction)
    requires
        old(damus).model().wf(),
    ensures
        final(damus).model().wf(),
        message_outcome(
            old(damus).model(),
            store,
            relay@,
            *msg,
            final(damus).model(),
            reaction@,
        ),
{
    match msg {
        RelayMessage::Event(_subid, ev) => Reaction::Ingest { payload: ev.clone() },
        RelayMessage::Notice(_msg) => Reaction::Noted,
        RelayMessage::OK { .. } => Reaction::Noted,
        RelayMessage::Eose(sid) => {
            if let SubKind::Other = classify(sid.as_str()) {
                return Reaction::Anomaly { sub_id: sid.clone() };
            }
            let r = handle_eose(damus, store, sid.as_str());
            let reaction = match r {
                Ok(Some(m)) => Reaction::Send { relay: String::from_str(relay), msg: m },
                Ok(None) => Reaction::Noted,
                Err(e) => Reaction::Failed(e),
            };
            reaction
        },
    }
}

/// How an event of a relay connection is dealt with: an opened connection
/// is sent the timelines' subscriptions, a message is dealt with as
/// `message_outcome` says, and anything else is only noted.
pub open spec fn event_outcome(
    before: DamusModel,
    store: &Snapshot,
    relay: Seq<char>,
    event: RelayEvent,
    after: DamusModel,
    reactions: Seq<ReactionView>,
) -> bool {
    match event {
        RelayEvent::Opened => after == before && reactions == initial_requests(
            relay,
            before.timelines,
        ),
        RelayEvent::Message(msg) => reactions.len() == 1 && message_outcome(
            before,
            store,
            relay,
            msg,
            after,
            reactions[0],
        ),
        _ => after == before && reactions == seq![ReactionView::Noted],
    }
}

/// Deals with one event of the connection to the relay `relay`.
pub fn process_relay_event(
    damus: &mut Damus,
    store: &Snapshot,
    relay: &str,
    event: &RelayEvent,
) -> (reactions: Vec<Reaction>)
    requires
        old(damus).model().wf(),
    ensures
        final(damus).model().wf(),
        event_outcome(
            old(damus).model(),
            store,
            relay@,
            *event,
            final(damus).model(),
            reaction_views(reactions@),
        ),
{
    match event {
        RelayEvent::Opened => send_initial_filters(damus, relay),
        RelayEvent::Message(msg) => {
            let reaction = process_message(damus, store, relay, msg);
            let mut out: Vec<Reaction> = Vec::new();
            out.push(reaction);
            out
        },
        _ => {
            let mut out: Vec<Reaction> = Vec::new();
            out.push(Reaction::Noted);
            assert(reaction_views(out@) =~= seq![ReactionView::Noted]);
            out
        },
    }
}

/// The batches of notes of a tick, one for each timeline.
pub open spec fn batch_seqs(batches: Seq<Vec<Note>>) -> Seq<Seq<Note>> {
    Seq::new(batches.len(), |i: int| batches[i]@)
}

/// The deck after the first `n` timelines were polled, each with its batch:
/// a timeline with a subscription ingests its batch, one without is passed
/// over.
pub open spec fn polled(d: DamusModel, batches: Seq<Seq<Note>>, n: nat) -> DamusModel
    decreases n,
{
    if n == 0 {
        d
    } else {
        let p = polled(d, batches, (n - 1) as nat);
        if p.timelines[n - 1].subscription.is_some() {
            p.ingest(n - 1, batches[n - 1])
        } else {
            p
        }
    }
}

/// The identities that the polls of the first `n` timelines found
/// unresolved, taken together.
pub open spec fn poll_unknown(
    store: &Snapshot,
    d: DamusModel,
    batches: Seq<Seq<Note>>,
    n: nat,
) -> Set<UnknownId>
    decreases n,
{
    if n == 0 {
        Set::empty()
    } else {
        let p = polled(d, batches, (n - 1) as nat);
        let earlier = poll_unknown(store, d, batches, (n - 1) as nat);
        if p.timelines[n - 1].subscription.is_some() {
            earlier.union(scan_all(store, p.note_cache, batches[n - 1]))
        } else {
            earlier
        }
    }
}

/// What the poll of one timeline reports: how many items came to the front
/// of each view, or that the timeline has no subscription.
pub open spec fn poll_report(before: TimelineModel, after: TimelineModel) -> Result<
    Inserted,
    Error,
> {
    if before.subscription.is_some() {
        Ok(
            Inserted {
                notes: front_growth(before.views[0].notes, after.views[0].notes) as usize,
                notes_and_replies: front_growth(
                    before.views[1].notes,
                    after.views[1].notes,
                ) as usize,
            },
        )
    } else {
        Err(Error::NoActiveSubscription)
    }
}

/// The poll of a tick: every timeline takes the batch of notes that the
/// store made visible for it, a timeline without subscription failing alone;
/// then one request asks for all identities that the scans of the tick found
/// unresolved. Returns each timeline's report and the request, which is to
/// go to every relay.
pub fn try_process_event(damus: &mut Damus, store: &Snapshot, batches: &Vec<Vec<Note>>) -> (out: (
    Vec<Result<Inserted, Error>>,
    Option<ClientMessage>,
))
    requires
        old(damus).model().wf(),
        batches@.len() == old(damus).timelines@.len(),
    ensures
        final(damus).model().wf(),
        final(damus).model() == polled(
            old(damus).model(),
            batch_seqs(batches@),
            batches@.len(),
        ),
        out.0@.len() == batches@.len(),
        forall|i: int|
            0 <= i < batches@.len() ==> #[trigger] out.0@[i] == poll_report(
                old(damus).model().timelines[i],
                final(damus).model().timelines[i],
            ),
        resolves(
            message_view(out.1),
            poll_unknown(store, old(damus).model(), batch_seqs(batches@), batches@.len()),
        ),
{
    let ghost d0 = damus.model();
    let ghost bs = batch_seqs(batches@);
    let mut unknown_ids = UnknownIds::new();
    let mut reports: Vec<Result<Inserted, Error>> = Vec::new();
    let mut timeline: usize = 0;
    while timeline < batches.len()
        invariant
            timeline <= batches.len(),
            bs == batch_seqs(batches@),
            d0 == old(damus).model(),
            d0.wf(),
            batches@.len() == d0.timelines.len(),
            damus.model().wf(),
            damus.timelines@.len() == batches@.len(),
            damus.model() == polled(d0, bs, timeline as nat),
            unknown_ids.wf(),
            unknown_ids@ == poll_unknown(store, d0, bs, timeline as nat),
            reports@.len() == timeline,
            forall|i: int|
                0 <= i < timeline ==> #[trigger] reports@[i] == poll_report(
                    d0.timelines[i],
                    damus.model().timelines[i],
                ),
            forall|i: int|
                timeline <= i < batches@.len() ==> #[trigger] damus.model().timelines[i]
                    == d0.timelines[i],
        decreases batches.len() - timeline,
    {
        let r = poll_notes_for_timeline(
            damus,
            store,
            timeline,
            batches[timeline].as_slice(),
            &mut unknown_ids,
        );
        reports.push(r);
        timeline = timeline + 1;
    }
    let ids = unknown_ids.as_slice();
    let msg = request_unknown(ids);
    (reports, msg)
}

/// After a tick's poll every timeline without a subscription is as it was,
/// and every other one holds its views merged with its batch.
pub proof fn lemma_polled_timelines(d: DamusModel, batches: Seq<Seq<Note>>, n: nat, i: int)
    requires
        n <= d.timelines.len(),
        0 <= i < d.timelines.len(),
    ensures
        polled(d, batches, n).timelines.len() == d.timelines.len(),
        polled(d, batches, n).selected_timeline == d.selected_timeline,
        polled(d, batches, n).state == d.state,
        i >= n || d.timelines[i].subscription.is_none() ==> polled(d, batches, n).timelines[i]
            == d.timelines[i],
        i < n && d.timelines[i].subscription.is_some() ==> polled(d, batches, n).timelines[i]
            == d.timelines[i].ingest(polled(d, batches, i as nat).note_cache, batches[i]),
    decreases n,
{
    if n > 0 {
        lemma_polled_timelines(d, batches, (n - 1) as nat, i);
        lemma_polled_timelines(d, batches, (n - 1) as nat, n - 1);
    }
}

} // verus!
