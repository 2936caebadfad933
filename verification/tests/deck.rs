use notedeck::damus::{
    handle_key_events, update_damus, ContextAction, Damus, DamusState, Key, KeyEvent,
};
use notedeck::filter::Filter;
use notedeck::imgcache::ImageCache;
use notedeck::noteref::NoteRef;
use notedeck::timeline::{Timeline, TimelineView, ViewFilter};

fn timeline_with(n: u64) -> Timeline {
    let mut t = Timeline::new(vec![Filter::new()]);
    let refs: Vec<NoteRef> = (0..n).map(|k| NoteRef { key: k, created_at: 100 + k }).collect();
    t.merge(&refs, &refs);
    t
}

fn press(key: Key) -> KeyEvent {
    KeyEvent { key, pressed: true }
}

fn cursors(d: &Damus) -> Vec<i32> {
    d.timelines.iter().map(|t| t.current_view().selection).collect()
}

#[test]
fn a_new_timeline_has_the_two_views_and_no_subscription() {
    let t = Timeline::new(vec![Filter::new().kinds(vec![1])]);
    assert_eq!(t.views.len(), 2);
    assert_eq!(t.views[0], TimelineView::new(ViewFilter::Notes));
    assert_eq!(t.views[1], TimelineView::new(ViewFilter::NotesAndReplies));
    assert_eq!(t.selected_view, 0);
    assert_eq!(t.subscription, None);
    assert_eq!(t.filter, vec![Filter::new().kinds(vec![1])]);
    assert_eq!(t.view(ViewFilter::NotesAndReplies).filter, ViewFilter::NotesAndReplies);
    assert_eq!(t.current_view().filter, ViewFilter::Notes);
}

#[test]
fn view_filters_have_names_and_places() {
    assert_eq!(ViewFilter::Notes.name(), "Notes");
    assert_eq!(ViewFilter::NotesAndReplies.name(), "Notes & Replies");
    assert_eq!(ViewFilter::Notes.index(), 0);
    assert_eq!(ViewFilter::NotesAndReplies.index(), 1);
    assert_eq!(ViewFilter::default(), ViewFilter::NotesAndReplies);
}

#[test]
fn a_new_deck_is_initializing_with_the_first_timeline_selected() {
    let mut d = Damus::new(vec![timeline_with(0), timeline_with(2)]);
    assert_eq!(d.state, DamusState::Initializing);
    assert_eq!(d.selected_timeline, 0);
    assert!(!d.textmode);
    assert_eq!(d.note_cache().len(), 0);
    assert_eq!(d.note_cache_mut().len(), 0);
    assert_eq!(d.timelines.len(), 2);
}

#[test]
fn the_first_update_asks_for_setup_once() {
    let mut d = Damus::new(vec![timeline_with(0)]);
    assert!(update_damus(&mut d));
    assert_eq!(d.state, DamusState::Initialized);
    assert!(!update_damus(&mut d));
    assert_eq!(d.state, DamusState::Initialized);
}

#[test]
fn timelines_are_selected_within_bounds() {
    let mut d = Damus::new(vec![timeline_with(0), timeline_with(0), timeline_with(0)]);
    d.select_left();
    assert_eq!(d.selected_timeline, 0);
    d.select_right();
    d.select_right();
    assert_eq!(d.selected_timeline, 2);
    d.select_right();
    assert_eq!(d.selected_timeline, 2);
    d.select_left();
    assert_eq!(d.selected_timeline, 1);
}

#[test]
fn the_cursor_moves_in_the_selected_timeline_only() {
    let mut d = Damus::new(vec![timeline_with(3), timeline_with(3)]);
    d.select_right();
    d.select_down();
    d.select_down();
    d.select_down();
    assert_eq!(cursors(&d), vec![0, 2]);
    d.select_up();
    assert_eq!(cursors(&d), vec![0, 1]);
    assert_eq!(d.selected_timeline().current_view().selection, 1);
    d.selected_timeline().current_view_mut().select_up();
    d.selected_timeline().view_mut(ViewFilter::NotesAndReplies).select_down();
    assert_eq!(d.timelines[1].views[0].selection, 0);
    assert_eq!(d.timelines[1].views[1].selection, 1);
}

#[test]
fn keys_navigate_and_the_last_zoom_key_wins() {
    let mut d = Damus::new(vec![timeline_with(4), timeline_with(4)]);
    d.select_right();
    let events = vec![
        press(Key::J),
        press(Key::J),
        KeyEvent { key: Key::J, pressed: false },
        press(Key::K),
        press(Key::Equals),
        press(Key::Other),
        press(Key::Minus),
        KeyEvent { key: Key::Equals, pressed: false },
    ];
    let action = handle_key_events(&events, &mut d);
    assert_eq!(action, Some(ContextAction::ZoomOut));
    assert_eq!(d.selected_timeline, 1);
    assert_eq!(cursors(&d), vec![0, 1]);

    let action = handle_key_events(&[press(Key::L)], &mut d);
    assert_eq!(action, None);
    assert_eq!(d.selected_timeline, 0);
    let action = handle_key_events(&[press(Key::H), press(Key::Equals)], &mut d);
    assert_eq!(action, Some(ContextAction::ZoomIn));
    assert_eq!(d.selected_timeline, 0);
    assert_eq!(handle_key_events(&[], &mut d), None);
}

#[test]
fn image_keys_are_crockford_base32() {
    assert_eq!(ImageCache::key("a"), "C4");
    assert_eq!(ImageCache::key("hello"), "D1JPRV3F");
    assert_eq!(ImageCache::key("foobar"), "CSQPYRK1E8");
    assert_eq!(
        ImageCache::key("https://damus.io/img/logo.png"),
        "D1T78W3K78QJYS31DNTQ6BK9DWQPJVB75XP6YSVF5SR6WSR"
    );
    assert_eq!(ImageCache::key(""), "");
    for (url, len) in [("a", 2), ("ab", 4), ("abc", 5), ("abcd", 7), ("abcde", 8), ("abcdef", 10)] {
        let key = ImageCache::key(url);
        assert_eq!(key.len(), len);
        assert!(key.chars().all(|c| "0123456789ABCDEFGHJKMNPQRSTVWXYZ".contains(c)));
    }
    let key = ImageCache::key("../../etc/passwd\\x.png");
    assert!(!key.contains('/') && !key.contains('\\') && !key.contains('.'));
    assert_eq!(key.len(), (8 * 22 + 4) / 5);
    assert_eq!(ImageCache::rel_dir(), "img");
    assert_eq!(ImageCache::new("cache/img".to_string()).cache_dir, "cache/img");
}
