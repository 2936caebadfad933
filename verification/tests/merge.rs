use notedeck::merge::{merge_batch, merge_sorted_vecs, sort_refs};
use notedeck::noteref::NoteRef;
use notedeck::timeline::{TimelineView, ViewFilter};

fn nr(key: u64, created_at: u64) -> NoteRef {
    NoteRef { key, created_at }
}

fn times(v: &[NoteRef]) -> Vec<u64> {
    v.iter().map(|r| r.created_at).collect()
}

fn is_view(v: &[NoteRef]) -> bool {
    for i in 0..v.len() {
        for j in (i + 1)..v.len() {
            if !v[i].precedes(&v[j]) || v[i].key == v[j].key {
                return false;
            }
        }
    }
    true
}

#[test]
fn precedes_is_newest_first_then_lowest_handle() {
    assert!(nr(1, 200).precedes(&nr(2, 100)));
    assert!(!nr(2, 100).precedes(&nr(1, 200)));
    assert!(nr(1, 100).precedes(&nr(2, 100)));
    assert!(!nr(2, 100).precedes(&nr(1, 100)));
    assert!(!nr(1, 100).precedes(&nr(1, 100)));
}

#[test]
fn three_notes_arriving_out_of_order() {
    let mut view = TimelineView::new(ViewFilter::NotesAndReplies);
    let first = view.merge(&[nr(1, 100)]);
    assert_eq!(first, 1);
    assert_eq!(times(&view.notes), vec![100]);
    let second = view.merge(&[nr(2, 300)]);
    assert_eq!(second, 1);
    assert_eq!(times(&view.notes), vec![300, 100]);
    let third = view.merge(&[nr(3, 200)]);
    assert_eq!(third, 0);
    assert_eq!(times(&view.notes), vec![300, 200, 100]);
    assert_eq!(view.notes, vec![nr(2, 300), nr(3, 200), nr(1, 100)]);
}

#[test]
fn merging_an_empty_batch_changes_nothing() {
    let existing = vec![nr(2, 300), nr(3, 200), nr(1, 100)];
    let (out, prepended) = merge_batch(&existing, &[]);
    assert_eq!(out, existing);
    assert_eq!(prepended, 0);
    let (out, prepended) = merge_batch(&[], &[]);
    assert!(out.is_empty());
    assert_eq!(prepended, 0);
}

#[test]
fn merging_a_batch_twice_changes_nothing_more() {
    let existing = vec![nr(5, 500), nr(1, 100)];
    let batch = vec![nr(7, 50), nr(6, 700), nr(8, 300), nr(5, 500)];
    let (once, first) = merge_batch(&existing, &batch);
    assert_eq!(once, vec![nr(6, 700), nr(5, 500), nr(8, 300), nr(1, 100), nr(7, 50)]);
    assert_eq!(first, 1);
    let (twice, second) = merge_batch(&once, &batch);
    assert_eq!(twice, once);
    assert_eq!(second, 0);
}

#[test]
fn a_whole_batch_into_an_empty_view_counts_every_item() {
    let (out, prepended) = merge_batch(&[], &[nr(1, 100), nr(2, 300), nr(3, 200)]);
    assert_eq!(times(&out), vec![300, 200, 100]);
    assert_eq!(prepended, 3);
}

#[test]
fn only_items_in_front_of_the_old_first_are_counted() {
    let existing = vec![nr(1, 100)];
    let (out, prepended) = merge_batch(&existing, &[nr(2, 50), nr(3, 150), nr(4, 250)]);
    assert_eq!(times(&out), vec![250, 150, 100, 50]);
    assert_eq!(prepended, 2);
}

#[test]
fn a_handle_that_the_view_holds_is_dropped() {
    let existing = vec![nr(1, 100)];
    let (out, prepended) = merge_batch(&existing, &[nr(1, 100), nr(1, 900)]);
    assert_eq!(out, existing);
    assert_eq!(prepended, 0);
}

#[test]
fn the_first_arrival_of_a_handle_wins() {
    let (out, prepended) = merge_batch(&[], &[nr(9, 10), nr(9, 20), nr(4, 15)]);
    assert_eq!(out, vec![nr(4, 15), nr(9, 10)]);
    assert_eq!(prepended, 2);
}

#[test]
fn equal_timestamps_are_ordered_by_handle() {
    let (out, _) = merge_batch(&[nr(5, 100)], &[nr(7, 100), nr(2, 100)]);
    assert_eq!(out, vec![nr(2, 100), nr(5, 100), nr(7, 100)]);
}

#[test]
fn any_batch_order_keeps_the_view_ordered_and_unique() {
    let pool: Vec<NoteRef> = (0..24u64).map(|k| nr(k, (k * 37) % 11)).collect();
    let mut forward = TimelineView::new(ViewFilter::NotesAndReplies);
    for chunk in pool.chunks(5) {
        forward.merge(chunk);
        assert!(is_view(&forward.notes));
    }
    let mut backward = TimelineView::new(ViewFilter::NotesAndReplies);
    let mut reversed = pool.clone();
    reversed.reverse();
    for chunk in reversed.chunks(7) {
        backward.merge(chunk);
        backward.merge(chunk);
        assert!(is_view(&backward.notes));
    }
    assert_eq!(forward.notes.len(), 24);
    assert_eq!(forward.notes, backward.notes);
}

#[test]
fn merge_sorted_vecs_keeps_a_shared_item_once() {
    let a = vec![nr(1, 300), nr(2, 200)];
    let b = vec![nr(3, 250), nr(2, 200), nr(4, 100)];
    let out = merge_sorted_vecs(&a, &b);
    assert_eq!(out, vec![nr(1, 300), nr(3, 250), nr(2, 200), nr(4, 100)]);
}

#[test]
fn sort_refs_orders_a_batch() {
    let out = sort_refs(&vec![nr(1, 10), nr(2, 30), nr(3, 20), nr(2, 30), nr(4, 30)]);
    assert_eq!(out, vec![nr(2, 30), nr(4, 30), nr(3, 20), nr(1, 10)]);
    assert!(sort_refs(&Vec::new()).is_empty());
}

#[test]
fn the_cursor_keeps_its_index_through_a_merge() {
    let mut view = TimelineView::new(ViewFilter::Notes);
    view.merge(&[nr(1, 100), nr(2, 200), nr(3, 300)]);
    view.select_down();
    view.select_down();
    assert_eq!(view.selection, 2);
    view.merge(&[nr(4, 400)]);
    assert_eq!(view.selection, 2);
    assert_eq!(view.filter, ViewFilter::Notes);
}

#[test]
fn the_cursor_never_leaves_the_view() {
    let mut view = TimelineView::new(ViewFilter::Notes);
    view.select_down();
    assert_eq!(view.selection, 0);
    view.select_up();
    assert_eq!(view.selection, 0);
    view.merge(&[nr(1, 100), nr(2, 200)]);
    view.select_down();
    assert_eq!(view.selection, 1);
    view.select_down();
    assert_eq!(view.selection, 1);
    view.select_up();
    view.select_up();
    assert_eq!(view.selection, 0);
}
