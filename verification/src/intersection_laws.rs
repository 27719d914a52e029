use crate::intersection::{
    all_numbers, ascending, entries_at, in_front, insert_pos, is_hit_at, nearest, sorted_by_t,
    Intersection,
};
use crate::scalar::Scalar;
use vstd::prelude::*;

verus! {

/// A sequence has at most one hit.
pub proof fn lemma_hit_unique(s: Seq<Intersection>, k1: int, k2: int)
    requires
        is_hit_at(s, k1),
        is_hit_at(s, k2),
    ensures
        k1 == k2,
{
    if k1 < k2 {
        assert(s[k2].t.less(s[k1].t));
        assert(!s[k2].t.less(s[k1].t));
    } else if k2 < k1 {
        assert(s[k1].t.less(s[k2].t));
        assert(!s[k1].t.less(s[k2].t));
    }
}

/// In an ascending sequence the hit is the first entry in front of the
/// origin.
pub proof fn lemma_hit_of_ascending(s: Seq<Intersection>, k: int)
    requires
        ascending(s),
        all_numbers(s),
        0 <= k < s.len(),
        in_front(s[k]),
        forall|j: int| 0 <= j < k ==> !in_front(#[trigger] s[j]),
    ensures
        is_hit_at(s, k),
{
    assert forall|j: int| 0 <= j < s.len() && in_front(s[j]) implies !(#[trigger] s[j]).t.less(
        s[k].t,
    ) by {
        if j < k {
            assert(!in_front(s[j]));
        } else if j > k {
            assert(!s[j].t.less(s[k].t));
        }
    }
}

/// The place found by [`insert_pos`] lies within the sequence, every entry
/// from it on is greater than `x`, and the entry before it is not.
pub proof fn lemma_insert_pos(s: Seq<Intersection>, x: Intersection)
    ensures
        0 <= insert_pos(s, x) <= s.len(),
        forall|j: int| insert_pos(s, x) <= j < s.len() ==> x.t.less((#[trigger] s[j]).t),
        insert_pos(s, x) > 0 ==> !x.t.less(s[insert_pos(s, x) - 1].t),
    decreases s.len(),
{
    if s.len() > 0 && x.t.less(s.last().t) {
        lemma_insert_pos(s.drop_last(), x);
        let p: int = insert_pos(s.drop_last(), x);
        assert forall|j: int| p <= j < s.len() implies x.t.less((#[trigger] s[j]).t) by {
            if j < s.len() - 1 {
                assert(s.drop_last()[j] == s[j]);
            }
        }
        if p > 0 {
            assert(s.drop_last()[p - 1] == s[p - 1]);
        }
    }
}

/// Sorting keeps the number of entries.
pub proof fn lemma_sorted_len(s: Seq<Intersection>)
    ensures
        sorted_by_t(s).len() == s.len(),
    decreases s.len(),
{
    if s.len() > 0 {
        lemma_sorted_len(s.drop_last());
        lemma_insert_pos(sorted_by_t(s.drop_last()), s.last());
    }
}

/// Sorting keeps the entries: each occurs as often after as before.
pub proof fn lemma_sorted_permutes(s: Seq<Intersection>)
    ensures
        sorted_by_t(s).to_multiset() =~= s.to_multiset(),
    decreases s.len(),
{
    broadcast use vstd::seq_lib::group_to_multiset_ensures;

    if s.len() > 0 {
        let x = s.last();
        let front = sorted_by_t(s.drop_last());
        let p: int = insert_pos(front, x);
        let r = front.insert(p, x);
        lemma_sorted_permutes(s.drop_last());
        lemma_insert_pos(front, x);
        assert(r.remove(p) =~= front);
        assert(r[p] == x);
        assert(r.to_multiset().count(x) > 0) by {
            assert(r.contains(x));
        }
        assert(front.to_multiset() =~= r.to_multiset().remove(x));
        assert(r.to_multiset() =~= front.to_multiset().insert(x));
        assert(s =~= s.drop_last().push(x));
        assert(s.to_multiset() =~= s.drop_last().to_multiset().insert(x));
    } else {
        assert(sorted_by_t(s) =~= s);
    }
}

/// Sorting keeps NaNs out where there were none.
pub proof fn lemma_sorted_numbers(s: Seq<Intersection>)
    requires
        all_numbers(s),
    ensures
        all_numbers(sorted_by_t(s)),
    decreases s.len(),
{
    if s.len() > 0 {
        let x = s.last();
        let front = sorted_by_t(s.drop_last());
        let p: int = insert_pos(front, x);
        let r = front.insert(p, x);
        assert forall|j: int| 0 <= j < s.drop_last().len() implies !(
        #[trigger] s.drop_last()[j]).t.nan() by {
            assert(s.drop_last()[j] == s[j]);
        }
        lemma_sorted_numbers(s.drop_last());
        lemma_insert_pos(front, x);
        assert forall|j: int| 0 <= j < r.len() implies !(#[trigger] r[j]).t.nan() by {
            if j < p {
                assert(r[j] == front[j]);
            } else if j > p {
                assert(r[j] == front[j - 1]);
            }
        }
    }
}

/// After sorting, `t` never decreases.
pub proof fn lemma_sorted_ascending(s: Seq<Intersection>)
    requires
        all_numbers(s),
    ensures
        ascending(sorted_by_t(s)),
    decreases s.len(),
{
    if s.len() > 0 {
        let x = s.last();
        let front = sorted_by_t(s.drop_last());
        let p: int = insert_pos(front, x);
        let r = front.insert(p, x);
        assert forall|j: int| 0 <= j < s.drop_last().len() implies !(
        #[trigger] s.drop_last()[j]).t.nan() by {
            assert(s.drop_last()[j] == s[j]);
        }
        lemma_sorted_ascending(s.drop_last());
        lemma_sorted_numbers(s.drop_last());
        lemma_insert_pos(front, x);
        assert forall|i: int, j: int| 0 <= i < j < r.len() implies !(#[trigger] r[j]).t.less(
            (#[trigger] r[i]).t,
        ) by {
            let a = if i < p {
                front[i]
            } else if i == p {
                x
            } else {
                front[i - 1]
            };
            let b = if j < p {
                front[j]
            } else if j == p {
                x
            } else {
                front[j - 1]
            };
            assert(r[i] == a);
            assert(r[j] == b);
            if j < p {
                assert(!front[j].t.less(front[i].t));
            } else if j == p {
                assert(!x.t.less(front[p - 1].t));
                if i < p - 1 {
                    assert(!front[p - 1].t.less(front[i].t));
                }
            } else if i == p {
                assert(x.t.less(front[j - 1].t));
            } else if i > p {
                assert(!front[j - 1].t.less(front[i - 1].t));
            } else {
                if i < j - 1 {
                    assert(!front[j - 1].t.less(front[i].t));
                }
            }
        }
    }
}

/// [`nearest`] finds the hit: it is `None` where no entry lies in front of
/// the origin, and the entry at the hit's place otherwise.
pub proof fn lemma_nearest_is_hit(s: Seq<Intersection>)
    ensures
        nearest(s) is None <==> forall|j: int| 0 <= j < s.len() ==> !in_front(#[trigger] s[j]),
        nearest(s) is Some ==> exists|k: int| #[trigger] is_hit_at(s, k) && s[k] == nearest(s)->0,
    decreases s.len(),
{
    if s.len() > 0 {
        let d = s.drop_last();
        let x = s.last();
        lemma_nearest_is_hit(d);
        assert forall|j: int| 0 <= j < d.len() implies d[j] == s[j] by {}
        let held = nearest(d);
        if in_front(x) && (held is None || x.t.less(held->0.t)) {
            let k: int = s.len() - 1;
            assert(s[k] == x);
            assert forall|j: int| 0 <= j < s.len() && in_front(s[j]) implies !(#[trigger] s[j]).t.less(
                x.t,
            ) by {
                if j < k {
                    assert(in_front(d[j]));
                    let kd: int = choose|kd: int| #[trigger] is_hit_at(d, kd) && d[kd] == held->0;
                    assert(!d[j].t.less(d[kd].t));
                }
            }
            assert forall|j: int| 0 <= j < k && in_front(s[j]) implies x.t.less(
                (#[trigger] s[j]).t,
            ) by {
                assert(in_front(d[j]));
                let kd: int = choose|kd: int| #[trigger] is_hit_at(d, kd) && d[kd] == held->0;
                assert(!d[j].t.less(d[kd].t));
            }
            assert(is_hit_at(s, k));
        } else if held is Some {
            let kd: int = choose|kd: int| #[trigger] is_hit_at(d, kd) && d[kd] == held->0;
            assert forall|j: int| 0 <= j < s.len() && in_front(s[j]) implies !(#[trigger] s[j]).t.less(
                s[kd].t,
            ) by {
                if j < d.len() {
                    assert(!d[j].t.less(d[kd].t));
                }
            }
            assert forall|j: int| 0 <= j < kd && in_front(s[j]) implies s[kd].t.less(
                (#[trigger] s[j]).t,
            ) by {
                assert(d[kd].t.less(d[j].t));
            }
            assert(is_hit_at(s, kd));
        } else {
            assert forall|j: int| 0 <= j < s.len() implies !in_front(#[trigger] s[j]) by {
                if j < d.len() {
                    assert(!in_front(d[j]));
                }
            }
        }
    }
}

/// Sorting does not change the hit: the sorted sequence has a hit exactly
/// where the unsorted one has, and it is the same entry.
pub proof fn lemma_sort_keeps_hit(s: Seq<Intersection>)
    requires
        all_numbers(s),
    ensures
        nearest(sorted_by_t(s)) == nearest(s),
    decreases s.len(),
{
    if s.len() > 0 {
        let d = s.drop_last();
        let x = s.last();
        let front = sorted_by_t(d);
        let p: int = insert_pos(front, x);
        let r = front.insert(p, x);
        assert forall|j: int| 0 <= j < d.len() implies !(#[trigger] d[j]).t.nan() by {
            assert(d[j] == s[j]);
        }
        lemma_sort_keeps_hit(d);
        lemma_sorted_ascending(d);
        lemma_sorted_numbers(d);
        lemma_sorted_ascending(s);
        lemma_sorted_numbers(s);
        lemma_insert_pos(front, x);
        lemma_nearest_is_hit(front);
        lemma_nearest_is_hit(r);
        assert forall|j: int| 0 <= j < r.len() implies (#[trigger] r[j]) == (if j < p {
            front[j]
        } else if j == p {
            x
        } else {
            front[j - 1]
        }) by {}
        let held = nearest(front);
        if in_front(x) && (held is None || x.t.less(held->0.t)) {
            // x is the first entry in front of the origin in r
            assert forall|j: int| 0 <= j < p implies !in_front(#[trigger] r[j]) by {
                if in_front(front[j]) {
                    let kd: int = choose|kd: int| #[trigger] is_hit_at(front, kd) && front[kd] == held->0;
                    assert(!front[j].t.less(front[kd].t));
                    assert(!x.t.less(front[p - 1].t));
                    if j < p - 1 {
                        assert(!front[p - 1].t.less(front[j].t));
                    }
                }
            }
            assert(r[p] == x);
            lemma_hit_of_ascending(r, p);
            let kr: int = choose|kr: int| #[trigger] is_hit_at(r, kr) && r[kr] == nearest(r)->0;
            lemma_hit_unique(r, kr, p);
        } else if held is Some {
            let kd: int = choose|kd: int| #[trigger] is_hit_at(front, kd) && front[kd] == held->0;
            // the hit of front stands before the place of x, or x is no rival
            let kn: int = if kd < p {
                kd
            } else {
                kd + 1
            };
            assert(r[kn] == front[kd]);
            assert forall|j: int| 0 <= j < r.len() && in_front(r[j]) implies !(#[trigger] r[j]).t.less(
                r[kn].t,
            ) by {
                if j < p {
                    assert(!front[j].t.less(front[kd].t));
                } else if j > p {
                    assert(!front[j - 1].t.less(front[kd].t));
                }
            }
            assert forall|j: int| 0 <= j < kn && in_front(r[j]) implies r[kn].t.less(
                (#[trigger] r[j]).t,
            ) by {
                if j < p {
                    assert(front[kd].t.less(front[j].t));
                } else if j > p {
                    assert(front[kd].t.less(front[j - 1].t));
                } else {
                    // j == p < kn, so kd >= p and x < front[kd]
                    assert(x.t.less(front[kd].t));
                }
            }
            assert(is_hit_at(r, kn));
            let kr: int = choose|kr: int| #[trigger] is_hit_at(r, kr) && r[kr] == nearest(r)->0;
            lemma_hit_unique(r, kr, kn);
        } else {
            assert forall|j: int| 0 <= j < r.len() implies !in_front(#[trigger] r[j]) by {
                if j < p {
                    assert(!in_front(front[j]));
                } else if j > p {
                    assert(!in_front(front[j - 1]));
                }
            }
        }
    }
}

/// The entries at `k` of two sequences joined are those of the first, then
/// those of the second.
pub proof fn lemma_entries_at_joined(a: Seq<Intersection>, b: Seq<Intersection>, k: Scalar)
    ensures
        entries_at(a + b, k) == entries_at(a, k) + entries_at(b, k),
    decreases b.len(),
{
    if b.len() == 0 {
        assert(a + b =~= a);
        assert(entries_at(a, k) + entries_at(b, k) =~= entries_at(a, k));
    } else {
        lemma_entries_at_joined(a, b.drop_last(), k);
        assert((a + b).drop_last() =~= a + b.drop_last());
        assert((a + b).last() == b.last());
        if b.last().t.same(k) {
            assert((entries_at(a, k) + entries_at(b.drop_last(), k)).push(b.last()) =~= entries_at(
                a,
                k,
            ) + entries_at(b.drop_last(), k).push(b.last()));
        }
    }
}

/// Sorting is stable: the entries with one and the same `t` stand in the
/// sorted sequence in the order they had.
pub proof fn lemma_sort_stable(s: Seq<Intersection>, k: Scalar)
    ensures
        entries_at(sorted_by_t(s), k) == entries_at(s, k),
    decreases s.len(),
{
    if s.len() > 0 {
        let d = s.drop_last();
        let x = s.last();
        let front = sorted_by_t(d);
        let p: int = insert_pos(front, x);
        lemma_sort_stable(d, k);
        lemma_insert_pos(front, x);
        let head = front.subrange(0, p);
        let tail = front.subrange(p, front.len() as int);
        assert(front =~= head + tail);
        lemma_entries_at_joined(head, tail, k);
        lemma_entries_at_joined(head.push(x), tail, k);
        assert(head.push(x).drop_last() =~= head);
        if x.t.same(k) {
            assert(entries_at(tail, k) =~= Seq::<Intersection>::empty()) by {
                lemma_entries_at_none(tail, k, x.t);
            }
            assert(entries_at(head, k) + Seq::<Intersection>::empty() =~= entries_at(head, k));
            assert(entries_at(head, k).push(x) + Seq::<Intersection>::empty() =~= entries_at(
                head,
                k,
            ).push(x));
        }
    }
}

/// A sequence whose entries are all greater than a number equal to `k`
/// holds no entry at `k`.
pub proof fn lemma_entries_at_none(s: Seq<Intersection>, k: Scalar, below: Scalar)
    requires
        below.same(k),
        forall|j: int| 0 <= j < s.len() ==> below.less((#[trigger] s[j]).t),
    ensures
        entries_at(s, k) == Seq::<Intersection>::empty(),
    decreases s.len(),
{
    if s.len() > 0 {
        assert forall|j: int| 0 <= j < s.drop_last().len() implies below.less(
            (#[trigger] s.drop_last()[j]).t,
        ) by {
            assert(s.drop_last()[j] == s[j]);
        }
        lemma_entries_at_none(s.drop_last(), k, below);
        assert(below.less(s[s.len() - 1].t));
    }
}

} // verus!
