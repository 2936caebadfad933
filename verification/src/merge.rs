//! The sorted view merger: what a view's sequence is after a batch of note
//! references has been merged into it, and the linear merge that computes it.

use crate::noteref::{precedes, NoteKey, NoteRef};
use std::collections::HashSet;
use vstd::prelude::*;

verus! {

broadcast use vstd::std_specs::hash::group_hash_axioms;

/// Every element is listed strictly before all later ones.
pub open spec fn strictly_ordered(s: Seq<NoteRef>) -> bool {
    forall|i: int, j: int| 0 <= i < j < s.len() ==> precedes(#[trigger] s[i], #[trigger] s[j])
}

/// Some element of `s` carries the handle `key`.
pub open spec fn has_key(s: Seq<NoteRef>, key: NoteKey) -> bool {
    exists|i: int| 0 <= i < s.len() && (#[trigger] s[i]).key == key
}

/// No two elements carry the same handle.
pub open spec fn distinct_keys(s: Seq<NoteRef>) -> bool {
    forall|i: int, j: int|
        0 <= i < j < s.len() ==> (#[trigger] s[i]).key != (#[trigger] s[j]).key
}

/// The invariant of a view's sequence: strict view order, no handle twice.
pub open spec fn is_view(s: Seq<NoteRef>) -> bool {
    strictly_ordered(s) && distinct_keys(s)
}

/// How many elements of `s` are listed before `r`.
pub open spec fn rank(s: Seq<NoteRef>, r: NoteRef) -> nat
    decreases s.len(),
{
    if s.len() == 0 {
        0
    } else {
        rank(s.drop_last(), r) + if precedes(s.last(), r) {
            1nat
        } else {
            0nat
        }
    }
}

/// `s` after one incoming reference: dropped when its handle is already
/// there, otherwise put at its place in the view order.
pub open spec fn insert_one(s: Seq<NoteRef>, r: NoteRef) -> Seq<NoteRef> {
    if has_key(s, r.key) {
        s
    } else {
        s.insert(rank(s, r) as int, r)
    }
}

/// `s` after a whole batch, taken in arrival order.
pub open spec fn merged(s: Seq<NoteRef>, batch: Seq<NoteRef>) -> Seq<NoteRef>
    decreases batch.len(),
{
    if batch.len() == 0 {
        s
    } else {
        insert_one(merged(s, batch.drop_last()), batch.last())
    }
}

/// The references of a batch that a merge into `s` admits, in arrival order:
/// the first one of each handle that `s` does not hold.
pub open spec fn admitted(s: Seq<NoteRef>, batch: Seq<NoteRef>) -> Seq<NoteRef>
    decreases batch.len(),
{
    if batch.len() == 0 {
        Seq::empty()
    } else {
        let earlier = admitted(s, batch.drop_last());
        let r = batch.last();
        if has_key(s, r.key) || has_key(earlier, r.key) {
            earlier
        } else {
            earlier.push(r)
        }
    }
}

/// How many items of `after` stand in front of everything `before` held:
/// all of them when `before` was empty.
pub open spec fn front_growth(before: Seq<NoteRef>, after: Seq<NoteRef>) -> nat {
    if before.len() == 0 {
        after.len()
    } else {
        rank(after, before[0])
    }
}

pub proof fn lemma_rank_bound(s: Seq<NoteRef>, r: NoteRef)
    ensures
        rank(s, r) <= s.len(),
    decreases s.len(),
{
    if s.len() > 0 {
        lemma_rank_bound(s.drop_last(), r);
    }
}

/// In an ordered sequence the elements before `r` are exactly the first
/// `rank(s, r)` ones.
pub proof fn lemma_rank_splits(s: Seq<NoteRef>, r: NoteRef)
    requires
        strictly_ordered(s),
    ensures
        rank(s, r) <= s.len(),
        forall|i: int| 0 <= i < rank(s, r) ==> precedes(#[trigger] s[i], r),
        forall|i: int| rank(s, r) <= i < s.len() ==> !precedes(#[trigger] s[i], r),
    decreases s.len(),
{
    lemma_rank_bound(s, r);
    if s.len() > 0 {
        let t = s.drop_last();
        let l = s.last();
        lemma_rank_splits(t, r);
        if precedes(l, r) {
            if rank(t, r) < t.len() {
                assert(false);
            }
        } else {
            assert forall|i: int| 0 <= i < rank(s, r) implies precedes(#[trigger] s[i], r) by {
                assert(t[i] == s[i]);
            }
            assert forall|i: int| rank(s, r) <= i < s.len() implies !precedes(
                #[trigger] s[i],
                r,
            ) by {
                if i < t.len() {
                    assert(t[i] == s[i]);
                }
            }
        }
    }
}

/// The rank of `r` in an ordered sequence is the first index whose element
/// is not listed before `r`.
pub proof fn lemma_rank_is_first_not_before(s: Seq<NoteRef>, r: NoteRef, q: int)
    requires
        strictly_ordered(s),
        0 <= q <= s.len(),
        forall|i: int| 0 <= i < q ==> precedes(#[trigger] s[i], r),
        q < s.len() ==> !precedes(s[q], r),
    ensures
        rank(s, r) == q,
{
    lemma_rank_splits(s, r);
    let k = rank(s, r) as int;
    if k < q {
        assert(precedes(s[k], r));
    }
}

/// What one insertion does to a view: it stays a view, and gains exactly
/// the incoming reference unless its handle was there.
pub proof fn lemma_insert_one(s: Seq<NoteRef>, r: NoteRef)
    requires
        is_view(s),
    ensures
        is_view(insert_one(s, r)),
        forall|x: NoteRef|
            #![trigger insert_one(s, r).contains(x)]
            insert_one(s, r).contains(x) <==> (s.contains(x) || (x == r && !has_key(s, r.key))),
        forall|k: NoteKey|
            #![trigger has_key(insert_one(s, r), k)]
            has_key(insert_one(s, r), k) <==> (has_key(s, k) || k == r.key),
{
    let out = insert_one(s, r);
    if !(has_key(s, r.key)) {
        lemma_rank_splits(s, r);
        let p = rank(s, r) as int;
        assert forall|x: NoteRef| out.contains(x) <==> (s.contains(x) || x == r) by {
            if s.contains(x) {
                let i = choose|i: int| 0 <= i < s.len() && s[i] == x;
                if i < p {
                    assert(out[i] == x);
                } else {
                    assert(out[i + 1] == x);
                }
            }
            if x == r {
                assert(out[p] == x);
            }
        }
        assert forall|k: NoteKey| has_key(out, k) <==> (has_key(s, k) || k == r.key) by {
            if has_key(s, k) {
                let i = choose|i: int| 0 <= i < s.len() && (#[trigger] s[i]).key == k;
                if i < p {
                    assert(out[i].key == k);
                } else {
                    assert(out[i + 1].key == k);
                }
            }
            if k == r.key {
                assert(out[p].key == k);
            }
        }
    }
}

/// The admitted references carry handles of the batch that `s` lacks, each
/// once; with the handles of `s` they cover every handle of the batch.
pub proof fn lemma_admitted(s: Seq<NoteRef>, batch: Seq<NoteRef>)
    ensures
        distinct_keys(admitted(s, batch)),
        forall|x: NoteRef| #[trigger]
            admitted(s, batch).contains(x) ==> batch.contains(x) && !has_key(s, x.key),
        forall|k: NoteKey|
            #![trigger has_key(admitted(s, batch), k)]
            #![trigger has_key(batch, k)]
            (has_key(s, k) || has_key(admitted(s, batch), k)) <==> (has_key(s, k) || has_key(
                batch,
                k,
            )),
    decreases batch.len(),
{
    let out = admitted(s, batch);
    if batch.len() > 0 {
        let front = batch.drop_last();
        let earlier = admitted(s, front);
        lemma_admitted(s, front);
        assert forall|x: NoteRef| #[trigger] out.contains(x) implies batch.contains(x) && !has_key(
            s,
            x.key,
        ) by {
            let i = choose|i: int| 0 <= i < out.len() && out[i] == x;
            if i < earlier.len() {
                assert(earlier.contains(x));
            }
        }
        assert forall|k: NoteKey|
            (has_key(s, k) || has_key(out, k)) <==> (has_key(s, k) || has_key(batch, k)) by {
            if has_key(out, k) {
                let i = choose|i: int| 0 <= i < out.len() && (#[trigger] out[i]).key == k;
                if i < earlier.len() {
                    assert(has_key(earlier, k));
                }
            }
            if has_key(batch, k) && !has_key(s, k) {
                let j = choose|j: int| 0 <= j < batch.len() && (#[trigger] batch[j]).key == k;
                if j < front.len() {
                    assert(front[j].key == k);
                    assert(has_key(front, k));
                    let i = choose|i: int| 0 <= i < earlier.len() && (#[trigger] earlier[i]).key == k;
                    assert(out[i].key == k);
                } else {
                    if has_key(earlier, k) {
                        let i = choose|i: int|
                            0 <= i < earlier.len() && (#[trigger] earlier[i]).key == k;
                        assert(out[i].key == k);
                    } else {
                        assert(out[out.len() - 1].key == k);
                    }
                }
            }
        }
    }
}

/// A merge keeps the view invariant; the merged view holds what `s` held
/// and what the batch had admitted, and carries every handle of either.
pub proof fn lemma_merged(s: Seq<NoteRef>, batch: Seq<NoteRef>)
    requires
        is_view(s),
    ensures
        is_view(merged(s, batch)),
        forall|x: NoteRef|
            #![trigger merged(s, batch).contains(x)]
            merged(s, batch).contains(x) <==> (s.contains(x) || admitted(s, batch).contains(x)),
        forall|k: NoteKey|
            #![trigger has_key(merged(s, batch), k)]
            has_key(merged(s, batch), k) <==> (has_key(s, k) || has_key(batch, k)),
    decreases batch.len(),
{
    let out = merged(s, batch);
    if batch.len() > 0 {
        let front = batch.drop_last();
        let r = batch.last();
        let mid = merged(s, front);
        let earlier = admitted(s, front);
        lemma_merged(s, front);
        lemma_admitted(s, front);
        lemma_insert_one(mid, r);
        assert forall|x: NoteRef|
            out.contains(x) <==> (s.contains(x) || admitted(s, batch).contains(x)) by {
            let adm = admitted(s, batch);
            assert(insert_one(mid, r).contains(x) <==> (mid.contains(x) || (x == r && !has_key(
                mid,
                r.key,
            ))));
            if !(has_key(mid, r.key)) {
                if earlier.contains(x) {
                    let i = choose|i: int| 0 <= i < earlier.len() && earlier[i] == x;
                    assert(adm[i] == x);
                }
                assert(adm[adm.len() - 1] == r);
            }
        }
        assert forall|k: NoteKey| has_key(out, k) <==> (has_key(s, k) || has_key(batch, k)) by {
            if has_key(batch, k) {
                let j = choose|j: int| 0 <= j < batch.len() && (#[trigger] batch[j]).key == k;
                if j < front.len() {
                    assert(front[j].key == k);
                }
            }
        }
    }
}

/// Two ordered sequences with the same elements are the same sequence.
pub proof fn lemma_ordered_unique(a: Seq<NoteRef>, b: Seq<NoteRef>)
    requires
        strictly_ordered(a),
        strictly_ordered(b),
        forall|x: NoteRef| a.contains(x) <==> b.contains(x),
    ensures
        a == b,
    decreases a.len(),
{
    if a.len() == 0 {
        if b.len() > 0 {
            assert(b.contains(b[0]));
        }
    } else {
        let la = a.last();
        assert(a.contains(a[a.len() - 1]));
        let lb = b.last();
        assert(b.contains(b[b.len() - 1]));
        let m = choose|m: int| 0 <= m < a.len() && a[m] == lb;
        if m < a.len() - 1 {
            assert(false);
        }
        let a0 = a.drop_last();
        let b0 = b.drop_last();
        assert forall|x: NoteRef| a0.contains(x) <==> b0.contains(x) by {
            if a0.contains(x) {
                assert(a.contains(x));
                let j = choose|j: int| 0 <= j < b.len() && b[j] == x;
                assert(b0[j] == x);
            }
            if b0.contains(x) {
                assert(b.contains(x));
                let j = choose|j: int| 0 <= j < a.len() && a[j] == x;
                assert(a0[j] == x);
            }
        }
        lemma_ordered_unique(a0, b0);
        assert(a =~= a0.push(la));
    }
}

/// Merges two ordered slices into one ordered vector in a single pass; an
/// element that both hold is kept once.
pub fn merge_sorted_vecs(vec1: &[NoteRef], vec2: &[NoteRef]) -> (out: Vec<NoteRef>)
    requires
        strictly_ordered(vec1@),
        strictly_ordered(vec2@),
    ensures
        strictly_ordered(out@),
        forall|x: NoteRef| out@.contains(x) <==> (vec1@.contains(x) || vec2@.contains(x)),
        out@.len() <= vec1@.len() + vec2@.len(),
{
    let mut out: Vec<NoteRef> = Vec::new();
    let mut i: usize = 0;
    let mut j: usize = 0;
    while i < vec1.len() || j < vec2.len()
        invariant
            i <= vec1.len(),
            j <= vec2.len(),
            strictly_ordered(vec1@),
            strictly_ordered(vec2@),
            strictly_ordered(out@),
            out@.len() <= i + j,
            forall|k: int|
                0 <= k < out@.len() ==> (exists|a: int| 0 <= a < i && vec1@[a] == #[trigger] out@[k])
                    || (exists|b: int| 0 <= b < j && vec2@[b] == out@[k]),
            forall|a: int| 0 <= a < i ==> out@.contains(#[trigger] vec1@[a]),
            forall|b: int| 0 <= b < j ==> out@.contains(#[trigger] vec2@[b]),
            forall|k: int| 0 <= k < out@.len() && i < vec1.len() ==> precedes(#[trigger] out@[k], vec1@[i as int]),
            forall|k: int| 0 <= k < out@.len() && j < vec2.len() ==> precedes(#[trigger] out@[k], vec2@[j as int]),
        decreases vec1.len() - i + (vec2.len() - j),
    {
        let ghost before = out@;
        let take1: bool = i < vec1.len() && (j >= vec2.len() || !vec2[j].precedes(&vec1[i]));
        if take1 {
            let x = vec1[i];
            let both: bool = j < vec2.len() && !x.precedes(&vec2[j]);
            out.push(x);
            proof {
                assert(out@[before.len() as int] == x);
                assert forall|a: int| 0 <= a < i + 1 implies out@.contains(
                    #[trigger] vec1@[a],
                ) by {
                    if a < i {
                        let k = choose|k: int| 0 <= k < before.len() && before[k] == vec1@[a];
                        assert(out@[k] == vec1@[a]);
                    }
                }
                assert forall|b: int| 0 <= b < j + (if both { 1int } else { 0int }) implies out@.contains(
                    #[trigger] vec2@[b],
                ) by {
                    if b < j {
                        let k = choose|k: int| 0 <= k < before.len() && before[k] == vec2@[b];
                        assert(out@[k] == vec2@[b]);
                    }
                }
            }
            i = i + 1;
            if both {
                j = j + 1;
            }
        } else {
            let x = vec2[j];
            out.push(x);
            proof {
                assert(out@[before.len() as int] == x);
                assert forall|a: int| 0 <= a < i implies out@.contains(#[trigger] vec1@[a]) by {
                    let k = choose|k: int| 0 <= k < before.len() && before[k] == vec1@[a];
                    assert(out@[k] == vec1@[a]);
                }
                assert forall|b: int| 0 <= b < j + 1 implies out@.contains(
                    #[trigger] vec2@[b],
                ) by {
                    if b < j {
                        let k = choose|k: int| 0 <= k < before.len() && before[k] == vec2@[b];
                        assert(out@[k] == vec2@[b]);
                    }
                }
            }
            j = j + 1;
        }
    }
    out
}

/// Sorts `v[lo..hi]` into view order by merging sorted halves; equal
/// references are kept once.
fn sort_range(v: &Vec<NoteRef>, lo: usize, hi: usize) -> (out: Vec<NoteRef>)
    requires
        lo <= hi <= v.len(),
    ensures
        strictly_ordered(out@),
        forall|x: NoteRef|
            out@.contains(x) <==> (exists|k: int| lo <= k < hi && #[trigger] v@[k] == x),
    decreases hi - lo,
{
    if hi - lo == 0 {
        let out: Vec<NoteRef> = Vec::new();
        out
    } else if hi - lo == 1 {
        let mut out: Vec<NoteRef> = Vec::new();
        out.push(v[lo]);
        assert(out@[0] == v@[lo as int]);
        out
    } else {
        let mid: usize = lo + (hi - lo) / 2;
        let left = sort_range(v, lo, mid);
        let right = sort_range(v, mid, hi);
        let out = merge_sorted_vecs(left.as_slice(), right.as_slice());
        out
    }
}

/// Sorts a batch into view order, keeping equal references once.
pub fn sort_refs(v: &Vec<NoteRef>) -> (out: Vec<NoteRef>)
    ensures
        strictly_ordered(out@),
        forall|x: NoteRef| out@.contains(x) <==> v@.contains(x),
{
    let out = sort_range(v, 0, v.len());
    out
}

/// Picks from a batch, in arrival order, the first reference of each handle
/// that `existing` does not hold.
fn select_fresh(existing: &[NoteRef], incoming: &[NoteRef]) -> (adm: Vec<NoteRef>)
    ensures
        adm@ == admitted(existing@, incoming@),
{
    let mut seen: HashSet<NoteKey> = HashSet::new();
    let mut i: usize = 0;
    while i < existing.len()
        invariant
            i <= existing.len(),
            forall|k: NoteKey|
                seen@.contains(k) <==> (exists|a: int|
                    0 <= a < i && (#[trigger] existing@[a]).key == k),
        decreases existing.len() - i,
    {
        let key = existing[i].key;
        seen.insert(key);
        i = i + 1;
    }
    let mut adm: Vec<NoteRef> = Vec::new();
    let mut j: usize = 0;
    while j < incoming.len()
        invariant
            j <= incoming.len(),
            adm@ == admitted(existing@, incoming@.take(j as int)),
            forall|k: NoteKey|
                seen@.contains(k) <==> (has_key(existing@, k) || has_key(adm@, k)),
        decreases incoming.len() - j,
    {
        let ghost before = adm@;
        let r = incoming[j];
        let fresh = seen.insert(r.key);
        if fresh {
            adm.push(r);
        }
        proof {
            let upto = incoming@.take(j + 1);
            assert(upto.drop_last() =~= incoming@.take(j as int));
            assert forall|k: NoteKey|
                seen@.contains(k) <==> (has_key(existing@, k) || has_key(adm@, k)) by {
                if has_key(before, k) {
                    let a = choose|a: int| 0 <= a < before.len() && (#[trigger] before[a]).key == k;
                    assert(adm@[a].key == k);
                }
                if fresh && k == r.key {
                    assert(adm@[adm@.len() - 1].key == k);
                }
            }
        }
        j = j + 1;
    }
    assert(incoming@.take(incoming@.len() as int) =~= incoming@);
    adm
}

/// Merges an unordered batch into a view's ordered sequence. An incoming
/// reference whose handle the view already holds, or that an earlier one of
/// the batch brought, is dropped. Returns the new sequence and the number of
/// items that now stand in front of everything the view held before.
pub fn merge_batch(existing: &[NoteRef], incoming: &[NoteRef]) -> (res: (Vec<NoteRef>, usize))
    requires
        is_view(existing@),
    ensures
        res.0@ == merged(existing@, incoming@),
        res.1 == front_growth(existing@, res.0@),
        is_view(res.0@),
{
    let adm = select_fresh(existing, incoming);
    let sorted = sort_refs(&adm);
    let out = merge_sorted_vecs(existing, sorted.as_slice());
    proof {
        lemma_merged(existing@, incoming@);
        lemma_ordered_unique(out@, merged(existing@, incoming@));
    }
    if existing.len() == 0 {
        let n = out.len();
        (out, n)
    } else {
        let first = existing[0];
        let mut q: usize = 0;
        while q < out.len() && out[q].precedes(&first)
            invariant
                q <= out.len(),
                forall|i: int| 0 <= i < q ==> precedes(#[trigger] out@[i], first),
            decreases out.len() - q,
        {
            q = q + 1;
        }
        proof {
            lemma_rank_is_first_not_before(out@, first, q as int);
        }
        (out, q)
    }
}

/// A view after several batches, merged one after the other.
pub open spec fn merged_all(s: Seq<NoteRef>, batches: Seq<Seq<NoteRef>>) -> Seq<NoteRef>
    decreases batches.len(),
{
    if batches.len() == 0 {
        s
    } else {
        merged(merged_all(s, batches.drop_last()), batches.last())
    }
}

/// Whatever batches are merged, in whatever order, a view stays strictly
/// ordered and holds no handle twice.
pub proof fn lemma_merges_keep_view(s: Seq<NoteRef>, batches: Seq<Seq<NoteRef>>)
    requires
        is_view(s),
    ensures
        is_view(merged_all(s, batches)),
    decreases batches.len(),
{
    if batches.len() > 0 {
        lemma_merges_keep_view(s, batches.drop_last());
        lemma_merged(merged_all(s, batches.drop_last()), batches.last());
    }
}

/// Nothing stands in front of a view's own first item.
pub proof fn lemma_no_growth(s: Seq<NoteRef>)
    requires
        is_view(s),
    ensures
        front_growth(s, s) == 0,
{
    if s.len() > 0 {
        lemma_rank_is_first_not_before(s, s[0], 0);
    }
}

/// Merging an empty batch changes nothing and reports nothing prepended.
pub proof fn lemma_merge_empty(s: Seq<NoteRef>)
    requires
        is_view(s),
    ensures
        merged(s, Seq::empty()) == s,
        front_growth(s, merged(s, Seq::empty())) == 0,
{
    lemma_no_growth(s);
}

/// A batch whose handles the view all holds leaves the view as it is.
pub proof fn lemma_merge_known(s: Seq<NoteRef>, batch: Seq<NoteRef>)
    requires
        forall|k: NoteKey| has_key(batch, k) ==> has_key(s, k),
    ensures
        merged(s, batch) == s,
    decreases batch.len(),
{
    if batch.len() > 0 {
        let front = batch.drop_last();
        lemma_merge_known(s, front);
    }
}

/// Merging is idempotent under re-delivery: a batch merged a second time
/// changes nothing and reports nothing prepended.
pub proof fn lemma_merge_idempotent(s: Seq<NoteRef>, batch: Seq<NoteRef>)
    requires
        is_view(s),
    ensures
        merged(merged(s, batch), batch) == merged(s, batch),
        front_growth(merged(s, batch), merged(merged(s, batch), batch)) == 0,
{
    lemma_merged(s, batch);
    let once = merged(s, batch);
    lemma_merge_known(once, batch);
    lemma_no_growth(once);
}

/// A merge removes nothing: the view is never shorter afterwards.
pub proof fn lemma_merged_grows(s: Seq<NoteRef>, batch: Seq<NoteRef>)
    ensures
        merged(s, batch).len() >= s.len(),
    decreases batch.len(),
{
    if batch.len() > 0 {
        lemma_merged_grows(s, batch.drop_last());
        lemma_rank_bound(merged(s, batch.drop_last()), batch.last());
    }
}

/// Merges are monotonic: what a view holds stays in it, and any two of its
/// items keep their order.
pub proof fn lemma_merge_monotonic(s: Seq<NoteRef>, batch: Seq<NoteRef>, i: int, j: int)
    requires
        is_view(s),
        0 <= i < j < s.len(),
    ensures
        exists|p: int, q: int|
            0 <= p < q < merged(s, batch).len() && merged(s, batch)[p] == s[i] && merged(
                s,
                batch,
            )[q] == s[j],
{
    lemma_merged(s, batch);
    let out = merged(s, batch);
    assert(out.contains(s[i]) && out.contains(s[j]));
}

/// A batch that brings each handle once, and none that the view holds, is
/// admitted whole: the merged view holds what the view held and the batch.
pub proof fn lemma_merge_fresh(s: Seq<NoteRef>, batch: Seq<NoteRef>)
    requires
        is_view(s),
        distinct_keys(batch),
        forall|k: NoteKey| has_key(batch, k) ==> !has_key(s, k),
    ensures
        admitted(s, batch) == batch,
        forall|x: NoteRef|
            #![trigger merged(s, batch).contains(x)]
            merged(s, batch).contains(x) <==> (s.contains(x) || batch.contains(x)),
        merged(s, batch).len() == s.len() + batch.len(),
    decreases batch.len(),
{
    lemma_merged(s, batch);
    if batch.len() > 0 {
        let front = batch.drop_last();
        let r = batch.last();
        assert(distinct_keys(front)) by {
            assert forall|i: int, j: int| 0 <= i < j < front.len() implies (#[trigger] front[i]).key
                != (#[trigger] front[j]).key by {
                assert(front[i] == batch[i] && front[j] == batch[j]);
            }
        }
        assert forall|k: NoteKey| has_key(front, k) implies !has_key(s, k) by {
            let j = choose|j: int| 0 <= j < front.len() && (#[trigger] front[j]).key == k;
            assert(batch[j].key == k);
        }
        lemma_merge_fresh(s, front);
        lemma_merged(s, front);
        assert(batch[batch.len() - 1].key == r.key);
        assert(has_key(batch, r.key));
        if has_key(front, r.key) {
            let j = choose|j: int| 0 <= j < front.len() && (#[trigger] front[j]).key == r.key;
            assert(batch[j].key == batch[batch.len() - 1].key);
        }
        assert(admitted(s, batch) =~= batch);
        lemma_rank_bound(merged(s, front), r);
    }
}

} // verus!
