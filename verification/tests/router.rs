use notedeck::damus::Damus;
use notedeck::error::Error;
use notedeck::filter::Filter;
use notedeck::note::{Mention, Note, NoteReply};
use notedeck::noteref::NoteRef;
use notedeck::poll::{
    poll_notes_for_timeline, setup_initial_nostrdb_subs, Inserted, DEFAULT_QUERY_LIMIT, POLL_BATCH,
};
use notedeck::relay::{
    handle_eose, process_message, process_relay_event, send_initial_filters, try_process_event,
    ClientMessage, Reaction, RelayEvent, RelayMessage,
};
use notedeck::resolve::get_unknown_ids;
use notedeck::store::Snapshot;
use notedeck::subid::{classify, initial_subid, same_text, starts_with, unknown_ids_subid, SubKind};
use notedeck::timeline::{Timeline, ViewFilter};
use notedeck::unknowns::{UnknownId, UnknownIds};

const ALICE: [u8; 32] = [0xA1; 32];
const BOB: [u8; 32] = [0xB0; 32];
const ROOT: [u8; 32] = [0x11; 32];

fn note(key: u64, created_at: u64, pubkey: [u8; 32]) -> Note {
    Note {
        key,
        id: [key as u8; 32],
        pubkey,
        created_at,
        reply: NoteReply::none(),
        blocks: Some(Vec::new()),
    }
}

fn reply(key: u64, created_at: u64, pubkey: [u8; 32]) -> Note {
    let mut n = note(key, created_at, pubkey);
    n.reply = NoteReply { root: Some(ROOT), reply: None };
    n
}

fn deck(timelines: usize) -> Damus {
    let mut v = Vec::new();
    for _ in 0..timelines {
        v.push(Timeline::new(vec![Filter::new().kinds(vec![1])]));
    }
    Damus::new(v)
}

fn times(v: &[NoteRef]) -> Vec<u64> {
    v.iter().map(|r| r.created_at).collect()
}

#[test]
fn subscription_ids_are_numbered_from_one() {
    assert_eq!(initial_subid(1), "initial1");
    assert_eq!(initial_subid(9), "initial9");
    assert_eq!(initial_subid(10), "initial10");
    assert_eq!(initial_subid(4096), "initial4096");
    assert_eq!(initial_subid(0), "initial0");
    assert_eq!(unknown_ids_subid(), "unknown_ids");
}

#[test]
fn subscription_ids_are_told_apart() {
    assert_eq!(classify("initial1"), SubKind::Initial);
    assert_eq!(classify("initial"), SubKind::Initial);
    assert_eq!(classify("initially"), SubKind::Initial);
    assert_eq!(classify("unknown_ids"), SubKind::UnknownIds);
    assert_eq!(classify("unknown_ids2"), SubKind::Other);
    assert_eq!(classify("unknown_id"), SubKind::Other);
    assert_eq!(classify("initia"), SubKind::Other);
    assert_eq!(classify(""), SubKind::Other);
    assert_eq!(classify("Initial1"), SubKind::Other);
    assert!(starts_with("héllo", "hé"));
    assert!(!starts_with("hé", "héllo"));
    assert!(starts_with("abc", ""));
    assert!(same_text("héllo", "héllo"));
    assert!(!same_text("héllo", "hello"));
}

#[test]
fn eose_of_an_initial_subscription_with_nothing_unknown_sends_nothing() {
    let mut d = deck(2);
    let store = Snapshot::new();
    let r = handle_eose(&mut d, &store, "initial1");
    assert_eq!(r, Ok(None));

    let mut known = Snapshot::new();
    known.add_profile(ALICE);
    known.add_note(note(1, 100, ALICE));
    setup_initial_nostrdb_subs(&mut d, 0, 5, &[note(1, 100, ALICE)]);
    let r = handle_eose(&mut d, &known, "initial1");
    assert_eq!(r, Ok(None));
}

#[test]
fn eose_of_an_initial_subscription_asks_for_what_is_unknown() {
    let mut d = deck(2);
    let mut n = reply(1, 100, ALICE);
    n.blocks = Some(vec![Mention::Pubkey(BOB)]);
    setup_initial_nostrdb_subs(&mut d, 1, 5, &[n.clone()]);
    let mut store = Snapshot::new();
    store.add_note(n);
    let r = handle_eose(&mut d, &store, "initial2");
    let expected = ClientMessage::Req {
        sub_id: "unknown_ids".to_string(),
        filters: vec![
            Filter::new().authors(vec![ALICE, BOB]).kinds(vec![0]),
            Filter::new().ids(vec![ROOT]),
        ],
    };
    assert_eq!(r, Ok(Some(expected)));
}

#[test]
fn eose_of_the_resolver_subscription_closes_it() {
    let mut d = deck(1);
    let store = Snapshot::new();
    let r = handle_eose(&mut d, &store, "unknown_ids");
    assert_eq!(r, Ok(Some(ClientMessage::Close { sub_id: "unknown_ids".to_string() })));
    let reaction = process_message(
        &mut d,
        &store,
        "wss://relay.damus.io",
        &RelayMessage::Eose("unknown_ids".to_string()),
    );
    assert_eq!(
        reaction,
        Reaction::Send {
            relay: "wss://relay.damus.io".to_string(),
            msg: ClientMessage::close("unknown_ids".to_string()),
        }
    );
}

#[test]
fn eose_of_an_unknown_subscription_sends_nothing_and_is_reported() {
    let mut d = deck(1);
    setup_initial_nostrdb_subs(&mut d, 0, 5, &[note(1, 100, ALICE)]);
    let before = d.timelines.clone();
    let store = Snapshot::new();
    assert_eq!(handle_eose(&mut d, &store, "somebody-else"), Ok(None));
    assert_eq!(handle_eose(&mut d, &store, "foo"), Ok(None));
    assert_eq!(handle_eose(&mut d, &store, ""), Ok(None));
    let reaction =
        process_message(&mut d, &store, "ws://r", &RelayMessage::Eose("x".to_string()));
    assert_eq!(reaction, Reaction::Anomaly { sub_id: "x".to_string() });
    assert_eq!(
        process_relay_event(
            &mut d,
            &store,
            "ws://r",
            &RelayEvent::Message(RelayMessage::Eose("unknown_id".to_string()))
        ),
        vec![Reaction::Anomaly { sub_id: "unknown_id".to_string() }]
    );
    assert_eq!(d.timelines, before);
    assert_eq!(d.note_cache().len(), 1);
}

#[test]
fn eose_fails_only_for_a_timeline_whose_pass_fails_in_the_store() {
    let mut d = deck(1);
    setup_initial_nostrdb_subs(&mut d, 0, 5, &[note(1, 100, ALICE)]);
    let empty = Snapshot::new();
    assert_eq!(handle_eose(&mut d, &empty, "initial1"), Err(Error::StoreQueryFailure));
    assert_eq!(handle_eose(&mut d, &empty, "unknown_ids").is_ok(), true);
    assert_eq!(handle_eose(&mut d, &empty, "other").is_ok(), true);
    let reaction =
        process_message(&mut d, &empty, "ws://r", &RelayMessage::Eose("initial7".to_string()));
    assert_eq!(reaction, Reaction::Failed(Error::StoreQueryFailure));
}

#[test]
fn eose_fails_when_the_store_lacks_a_listed_note() {
    let mut d = deck(1);
    setup_initial_nostrdb_subs(&mut d, 0, 5, &[note(1, 100, ALICE)]);
    let store = Snapshot::new();
    assert_eq!(handle_eose(&mut d, &store, "initial1"), Err(Error::StoreQueryFailure));
    assert_eq!(get_unknown_ids(&mut d, &store), Err(Error::StoreQueryFailure));
    assert_eq!(d.note_cache().len(), 1);
}

#[test]
fn records_go_to_the_store_and_remarks_are_only_noted() {
    let mut d = deck(1);
    let store = Snapshot::new();
    let event = RelayMessage::Event("initial1".to_string(), "{\"kind\":1}".to_string());
    assert_eq!(
        process_message(&mut d, &store, "ws://r", &event),
        Reaction::Ingest { payload: "{\"kind\":1}".to_string() }
    );
    let notice = RelayMessage::Notice("slow down".to_string());
    assert_eq!(process_message(&mut d, &store, "ws://r", &notice), Reaction::Noted);
    let ok = RelayMessage::OK {
        event_id: "ab".to_string(),
        status: true,
        message: String::new(),
    };
    assert_eq!(process_message(&mut d, &store, "ws://r", &ok), Reaction::Noted);
}

#[test]
fn an_opened_connection_gets_one_subscription_per_timeline() {
    let mut d = Damus::new(vec![
        Timeline::new(vec![Filter::new().kinds(vec![1]), Filter::new().authors(vec![ALICE])]),
        Timeline::new(vec![Filter::new().limit(20).since(5)]),
    ]);
    setup_initial_nostrdb_subs(&mut d, 1, 8, &[note(1, 1000, ALICE), reply(2, 2000, BOB)]);
    let expected = vec![
        Reaction::Send {
            relay: "ws://localhost:8080".to_string(),
            msg: ClientMessage::Req {
                sub_id: "initial1".to_string(),
                filters: vec![Filter::new().kinds(vec![1]), Filter::new().authors(vec![ALICE])],
            },
        },
        Reaction::Send {
            relay: "ws://localhost:8080".to_string(),
            msg: ClientMessage::Req {
                sub_id: "initial2".to_string(),
                filters: vec![Filter::new().limit(20).since(1940)],
            },
        },
    ];
    assert_eq!(send_initial_filters(&d, "ws://localhost:8080"), expected);
    let store = Snapshot::new();
    assert_eq!(
        process_relay_event(&mut d, &store, "ws://localhost:8080", &RelayEvent::Opened),
        expected
    );
}

#[test]
fn other_connection_events_are_only_noted() {
    let mut d = deck(1);
    let store = Snapshot::new();
    for ev in [RelayEvent::Closed, RelayEvent::Error, RelayEvent::Other] {
        assert_eq!(process_relay_event(&mut d, &store, "ws://r", &ev), vec![Reaction::Noted]);
    }
    let msg = RelayEvent::Message(RelayMessage::Eose("unknown_ids".to_string()));
    assert_eq!(
        process_relay_event(&mut d, &store, "ws://r", &msg),
        vec![Reaction::Send {
            relay: "ws://r".to_string(),
            msg: ClientMessage::Close { sub_id: "unknown_ids".to_string() },
        }]
    );
}

#[test]
fn polling_without_a_subscription_fails_and_changes_nothing() {
    let mut d = deck(2);
    let store = Snapshot::new();
    let mut ids = UnknownIds::new();
    let before = d.timelines.clone();
    let r = poll_notes_for_timeline(&mut d, &store, 1, &[note(1, 100, ALICE)], &mut ids);
    assert_eq!(r, Err(Error::NoActiveSubscription));
    assert_eq!(d.timelines, before);
    assert!(d.timelines[1].notes(ViewFilter::Notes).is_empty());
    assert!(d.timelines[1].notes(ViewFilter::NotesAndReplies).is_empty());
    assert!(ids.is_empty());
    assert_eq!(d.note_cache().len(), 0);
    assert_eq!(Error::NoActiveSubscription.message(), "subscription not active in timeline");
}

#[test]
fn a_poll_merges_into_both_views_and_scans() {
    let mut d = deck(1);
    setup_initial_nostrdb_subs(&mut d, 0, 3, &[note(1, 100, ALICE)]);
    assert_eq!(d.timelines[0].subscription, Some(3));
    let mut store = Snapshot::new();
    store.add_profile(ALICE);
    let mut ids = UnknownIds::new();
    let batch = vec![reply(2, 300, BOB), note(3, 200, ALICE), note(4, 50, ALICE)];
    let r = poll_notes_for_timeline(&mut d, &store, 0, &batch, &mut ids);
    assert_eq!(r, Ok(Inserted { notes: 1, notes_and_replies: 2 }));
    assert_eq!(times(d.timelines[0].notes(ViewFilter::NotesAndReplies)), vec![300, 200, 100, 50]);
    assert_eq!(times(d.timelines[0].notes(ViewFilter::Notes)), vec![200, 100, 50]);
    assert_eq!(ids.as_slice(), &[UnknownId::Pubkey(BOB), UnknownId::Id(ROOT)]);
    assert_eq!(d.note_cache().len(), 4);

    let again = poll_notes_for_timeline(&mut d, &store, 0, &batch, &mut ids);
    assert_eq!(again, Ok(Inserted { notes: 0, notes_and_replies: 0 }));
    assert_eq!(times(d.timelines[0].notes(ViewFilter::NotesAndReplies)), vec![300, 200, 100, 50]);
}

#[test]
fn the_first_fill_sorts_what_the_store_held() {
    let mut d = deck(1);
    assert_eq!(d.timelines[0].query_limit(), DEFAULT_QUERY_LIMIT);
    assert_eq!(DEFAULT_QUERY_LIMIT, 200);
    assert_eq!(POLL_BATCH, 100);
    let held = vec![note(1, 100, ALICE), reply(2, 300, BOB), note(3, 200, ALICE)];
    setup_initial_nostrdb_subs(&mut d, 0, 11, &held);
    assert_eq!(d.timelines[0].subscription, Some(11));
    assert_eq!(times(d.timelines[0].notes(ViewFilter::NotesAndReplies)), vec![300, 200, 100]);
    assert_eq!(times(d.timelines[0].notes(ViewFilter::Notes)), vec![200, 100]);
    assert_eq!(
        d.timelines[0].notes(ViewFilter::NotesAndReplies)[0],
        NoteRef { key: 2, created_at: 300 }
    );

    let limited = Timeline::new(vec![Filter::new().limit(35), Filter::new().limit(7)]);
    assert_eq!(limited.query_limit(), 35);
    assert!(limited.notes(ViewFilter::NotesAndReplies).is_empty());
}

#[test]
fn unknown_ids_are_gathered_over_all_timelines() {
    let mut d = deck(2);
    let a = reply(1, 100, ALICE);
    let b = note(2, 200, BOB);
    setup_initial_nostrdb_subs(&mut d, 0, 1, &[a.clone()]);
    setup_initial_nostrdb_subs(&mut d, 1, 2, &[b.clone(), a.clone()]);
    let mut store = Snapshot::new();
    store.add_note(a);
    store.add_note(b);
    store.add_profile(BOB);
    let ids = get_unknown_ids(&mut d, &store).expect("every note is held");
    assert_eq!(ids, vec![UnknownId::Pubkey(ALICE), UnknownId::Id(ROOT)]);
}

#[test]
fn gathering_fills_the_cache_where_it_was_empty() {
    let mut d = deck(1);
    d.timelines[0].merge(&[], &[NoteRef { key: 9, created_at: 90 }]);
    let mut store = Snapshot::new();
    store.add_profile(ALICE);
    store.add_note(reply(9, 90, ALICE));
    assert_eq!(d.note_cache().len(), 0);
    let ids = get_unknown_ids(&mut d, &store).expect("the note is held");
    assert_eq!(ids, vec![UnknownId::Id(ROOT)]);
    assert_eq!(d.note_cache().len(), 1);
    let cached = d.note_cache().cached_note(9).copied();
    assert_eq!(cached.map(|c| c.reply.root), Some(Some(ROOT)));
}

#[test]
fn a_tick_polls_every_timeline_and_asks_once() {
    let mut d = deck(3);
    setup_initial_nostrdb_subs(&mut d, 0, 1, &[]);
    setup_initial_nostrdb_subs(&mut d, 2, 2, &[]);
    let mut store = Snapshot::new();
    store.add_profile(ALICE);
    let batches = vec![
        vec![note(1, 100, ALICE), note(2, 200, BOB)],
        vec![note(3, 300, BOB)],
        vec![reply(4, 400, ALICE)],
    ];
    let (reports, request) = try_process_event(&mut d, &store, &batches);
    assert_eq!(
        reports,
        vec![
            Ok(Inserted { notes: 2, notes_and_replies: 2 }),
            Err(Error::NoActiveSubscription),
            Ok(Inserted { notes: 0, notes_and_replies: 1 }),
        ]
    );
    assert!(d.timelines[1].notes(ViewFilter::NotesAndReplies).is_empty());
    assert_eq!(times(d.timelines[0].notes(ViewFilter::Notes)), vec![200, 100]);
    assert_eq!(times(d.timelines[2].notes(ViewFilter::NotesAndReplies)), vec![400]);
    assert_eq!(
        request,
        Some(ClientMessage::Req {
            sub_id: "unknown_ids".to_string(),
            filters: vec![
                Filter::new().authors(vec![BOB]).kinds(vec![0]),
                Filter::new().ids(vec![ROOT]),
            ],
        })
    );

    let nothing = vec![Vec::new(), Vec::new(), Vec::new()];
    let (reports, request) = try_process_event(&mut d, &store, &nothing);
    assert_eq!(reports[0], Ok(Inserted { notes: 0, notes_and_replies: 0 }));
    assert_eq!(request, None);
}
