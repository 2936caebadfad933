use notedeck::filter::{since_optimize_filter, Filter, OVERLAP_SECONDS};
use notedeck::noteref::NoteRef;
use notedeck::unknowns::{get_unknown_ids_filter, UnknownId, UnknownIds, PROFILE_KIND};

fn nr(key: u64, created_at: u64) -> NoteRef {
    NoteRef { key, created_at }
}

#[test]
fn optimize_without_a_prior_result_keeps_the_filter() {
    let mut filter = Filter::new().kinds(vec![1]).limit(500);
    let before = filter.clone();
    since_optimize_filter(&mut filter, &[]);
    assert_eq!(filter, before);
    assert_eq!(filter.since, None);

    let mut bounded = Filter::new().since(77);
    since_optimize_filter(&mut bounded, &[]);
    assert_eq!(bounded.since, Some(77));
}

#[test]
fn optimize_reaches_back_sixty_seconds() {
    assert_eq!(OVERLAP_SECONDS, 60);
    let mut filter = Filter::new().kinds(vec![1]).authors(vec![[7u8; 32]]).limit(10);
    since_optimize_filter(&mut filter, &[nr(4, 1_700_000_000), nr(3, 1_600_000_000)]);
    assert_eq!(filter.since, Some(1_699_999_940));
    assert_eq!(filter.kinds, Some(vec![1]));
    assert_eq!(filter.authors, Some(vec![[7u8; 32]]));
    assert_eq!(filter.limit, Some(10));
    assert_eq!(filter.ids, None);
}

#[test]
fn optimize_replaces_an_earlier_bound() {
    let mut filter = Filter::new().since(5);
    since_optimize_filter(&mut filter, &[nr(1, 1000)]);
    assert_eq!(filter.since, Some(940));
}

#[test]
fn optimize_stops_at_the_epoch() {
    let mut filter = Filter::new();
    since_optimize_filter(&mut filter, &[nr(1, 30)]);
    assert_eq!(filter.since, Some(0));
    let mut edge = Filter::new();
    since_optimize_filter(&mut edge, &[nr(1, 60)]);
    assert_eq!(edge.since, Some(0));
    let mut above = Filter::new();
    since_optimize_filter(&mut above, &[nr(1, 61)]);
    assert_eq!(above.since, Some(1));
}

#[test]
fn builders_set_one_constraint_each() {
    let f = Filter::new();
    assert_eq!(f, Filter { ids: None, authors: None, kinds: None, since: None, limit: None });
    let f = Filter::new().ids(vec![[1u8; 32]]).since(9);
    assert_eq!(f.ids, Some(vec![[1u8; 32]]));
    assert_eq!(f.since, Some(9));
    assert_eq!(f.authors, None);
    let copy = f.duplicate();
    assert_eq!(copy, f);
}

#[test]
fn no_identities_no_request() {
    assert_eq!(get_unknown_ids_filter(&[]), None);
}

#[test]
fn authors_and_notes_get_one_filter_each() {
    let ids = vec![
        UnknownId::Id([1u8; 32]),
        UnknownId::Pubkey([2u8; 32]),
        UnknownId::Id([3u8; 32]),
        UnknownId::Pubkey([4u8; 32]),
    ];
    let filters = get_unknown_ids_filter(&ids).expect("a request");
    assert_eq!(filters.len(), 2);
    assert_eq!(PROFILE_KIND, 0);
    assert_eq!(filters[0], Filter::new().authors(vec![[2u8; 32], [4u8; 32]]).kinds(vec![0]));
    assert_eq!(filters[1], Filter::new().ids(vec![[1u8; 32], [3u8; 32]]));
}

#[test]
fn only_authors_gives_only_the_profile_filter() {
    let filters = get_unknown_ids_filter(&[UnknownId::Pubkey([9u8; 32])]).expect("a request");
    assert_eq!(filters, vec![Filter::new().authors(vec![[9u8; 32]]).kinds(vec![0])]);
}

#[test]
fn only_notes_gives_only_the_id_filter() {
    let filters = get_unknown_ids_filter(&[UnknownId::Id([9u8; 32])]).expect("a request");
    assert_eq!(filters, vec![Filter::new().ids(vec![[9u8; 32]])]);
}

#[test]
fn unknown_id_tells_its_kind() {
    let pk = UnknownId::Pubkey([5u8; 32]);
    let id = UnknownId::Id([5u8; 32]);
    assert_eq!(pk.is_pubkey(), Some(&[5u8; 32]));
    assert_eq!(pk.is_id(), None);
    assert_eq!(id.is_id(), Some(&[5u8; 32]));
    assert_eq!(id.is_pubkey(), None);
    assert!(pk.same(&UnknownId::Pubkey([5u8; 32])));
    assert!(!pk.same(&id));
    assert!(!pk.same(&UnknownId::Pubkey([6u8; 32])));
}

#[test]
fn a_set_of_unknown_ids_holds_each_once() {
    let mut ids = UnknownIds::new();
    assert!(ids.is_empty());
    ids.insert(UnknownId::Pubkey([1u8; 32]));
    ids.insert(UnknownId::Id([1u8; 32]));
    ids.insert(UnknownId::Pubkey([1u8; 32]));
    assert_eq!(ids.len(), 2);
    assert!(ids.contains(&UnknownId::Id([1u8; 32])));
    assert!(!ids.contains(&UnknownId::Id([2u8; 32])));
    assert_eq!(ids.as_slice(), &[UnknownId::Pubkey([1u8; 32]), UnknownId::Id([1u8; 32])]);
    assert!(!ids.is_empty());
}
