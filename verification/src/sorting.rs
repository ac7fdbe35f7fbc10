//! What it means to sort a sequence stably and to drop repeated neighbours.

use vstd::prelude::*;

verus! {

/// `s` with `x` put behind the last element that `x` does not come before.
pub open spec fn insert_behind<A>(s: Seq<A>, x: A, before: spec_fn(A, A) -> bool) -> Seq<A>
    decreases s.len(),
{
    if s.len() > 0 && before(x, s.last()) {
        insert_behind(s.drop_last(), x, before).push(s.last())
    } else {
        s.push(x)
    }
}

/// The elements of `s` in the order of `before`, those that `before` does
/// not tell apart in the order they have in `s`.
pub open spec fn stable_sort<A>(s: Seq<A>, before: spec_fn(A, A) -> bool) -> Seq<A>
    decreases s.len(),
{
    if s.len() == 0 {
        s
    } else {
        insert_behind(stable_sort(s.drop_last(), before), s.last(), before)
    }
}

/// `s` without each element that is `same` as the last one kept before it.
pub open spec fn dedup_adjacent<A>(s: Seq<A>, same: spec_fn(A, A) -> bool) -> Seq<A>
    decreases s.len(),
{
    if s.len() == 0 {
        s
    } else {
        let kept = dedup_adjacent(s.drop_last(), same);
        if kept.len() > 0 && same(s.last(), kept.last()) {
            kept
        } else {
            kept.push(s.last())
        }
    }
}

/// `before` is a strict order in which being unordered is transitive: the
/// order of a key.
pub open spec fn strict_weak_order<A>(before: spec_fn(A, A) -> bool) -> bool {
    &&& forall|a: A| !#[trigger] before(a, a)
    &&& forall|a: A, b: A, c: A| #[trigger]
        before(a, b) && #[trigger] before(b, c) ==> before(a, c)
    &&& forall|a: A, b: A, c: A|
        !#[trigger] before(a, b) && !#[trigger] before(b, c) ==> !before(a, c)
}

/// No element of `s` comes before an earlier one.
pub open spec fn sorted<A>(s: Seq<A>, before: spec_fn(A, A) -> bool) -> bool {
    forall|i: int, j: int| 0 <= i < j < s.len() ==> !before(#[trigger] s[j], #[trigger] s[i])
}

pub proof fn lemma_insert_behind<A>(s: Seq<A>, x: A, before: spec_fn(A, A) -> bool)
    requires
        strict_weak_order(before),
        sorted(s, before),
    ensures
        sorted(insert_behind(s, x, before), before),
        insert_behind(s, x, before).len() == s.len() + 1,
        insert_behind(s, x, before).to_multiset() == s.to_multiset().insert(x),
        insert_behind(s, x, before).contains(x),
        forall|y: A| s.contains(y) ==> insert_behind(s, x, before).contains(y),
        forall|y: A| #[trigger] insert_behind(s, x, before).contains(y) ==> s.contains(y) || y == x,
    decreases s.len(),
{
    broadcast use vstd::seq_lib::group_to_multiset_ensures;

    let r = insert_behind(s, x, before);
    if s.len() > 0 && before(x, s.last()) {
        let head = s.drop_last();
        let inner = insert_behind(head, x, before);
        assert(sorted(head, before)) by {
            assert forall|i: int, j: int| 0 <= i < j < head.len() implies !before(
                #[trigger] head[j],
                #[trigger] head[i],
            ) by {
                assert(head[j] == s[j] && head[i] == s[i]);
            }
        }
        lemma_insert_behind(head, x, before);
        assert(r == inner.push(s.last()));
        assert forall|i: int, j: int| 0 <= i < j < r.len() implies !before(
            #[trigger] r[j],
            #[trigger] r[i],
        ) by {
            if j < inner.len() {
                assert(r[j] == inner[j] && r[i] == inner[i]);
            } else {
                assert(r[j] == s.last());
                assert(r[i] == inner[i]);
                assert(inner.contains(inner[i]));
                if inner[i] == x {
                    // x comes before the last element, so that one is not before x
                    if before(s.last(), x) {
                        assert(before(x, x));
                    }
                } else {
                    assert(head.contains(inner[i]));
                    let k = choose|k: int| 0 <= k < head.len() && head[k] == inner[i];
                    assert(s[k] == head[k]);
                    assert(!before(s[s.len() - 1], s[k]));
                }
            }
        }
        assert(s =~= head.push(s.last()));
        assert(r.to_multiset() =~= s.to_multiset().insert(x));
        assert(r.contains(x)) by {
            let m = choose|m: int| 0 <= m < inner.len() && inner[m] == x;
            assert(r[m] == x);
        }
        assert forall|y: A| s.contains(y) implies r.contains(y) by {
            let k = choose|k: int| 0 <= k < s.len() && s[k] == y;
            if k < head.len() {
                assert(head[k] == y);
                assert(head.contains(y));
                assert(inner.contains(y));
                let m = choose|m: int| 0 <= m < inner.len() && inner[m] == y;
                assert(r[m] == y);
            } else {
                assert(r[r.len() - 1] == y);
            }
        }
        assert forall|y: A| #[trigger] r.contains(y) implies s.contains(y) || y == x by {
            let k = choose|k: int| 0 <= k < r.len() && r[k] == y;
            if k < inner.len() {
                assert(inner[k] == y);
                assert(inner.contains(y));
                if y != x {
                    assert(head.contains(y));
                    let m = choose|m: int| 0 <= m < head.len() && head[m] == y;
                    assert(s[m] == y);
                }
            } else {
                assert(s[s.len() - 1] == y);
            }
        }
    } else {
        assert(r == s.push(x));
        assert forall|i: int, j: int| 0 <= i < j < r.len() implies !before(
            #[trigger] r[j],
            #[trigger] r[i],
        ) by {
            if j < s.len() {
                assert(r[j] == s[j] && r[i] == s[i]);
            } else {
                assert(r[j] == x);
                assert(r[i] == s[i]);
                // x is not before the last element, which is not before s[i]
                if i < s.len() - 1 {
                    assert(!before(s[s.len() - 1], s[i]));
                    assert(!before(x, s[s.len() - 1]));
                }
            }
        }
        assert(r[r.len() - 1] == x);
        assert forall|y: A| s.contains(y) implies r.contains(y) by {
            let k = choose|k: int| 0 <= k < s.len() && s[k] == y;
            assert(r[k] == y);
        }
        assert forall|y: A| #[trigger] r.contains(y) implies s.contains(y) || y == x by {
            let k = choose|k: int| 0 <= k < r.len() && r[k] == y;
            if k < s.len() {
                assert(s[k] == y);
            }
        }
    }
}

/// A stable sort is sorted and holds what its argument holds.
pub proof fn lemma_stable_sort<A>(s: Seq<A>, before: spec_fn(A, A) -> bool)
    requires
        strict_weak_order(before),
    ensures
        sorted(stable_sort(s, before), before),
        stable_sort(s, before).len() == s.len(),
        stable_sort(s, before).to_multiset() == s.to_multiset(),
        forall|y: A| s.contains(y) ==> stable_sort(s, before).contains(y),
        forall|y: A| #[trigger] stable_sort(s, before).contains(y) ==> s.contains(y),
    decreases s.len(),
{
    broadcast use vstd::seq_lib::group_to_multiset_ensures;

    if s.len() > 0 {
        let head = s.drop_last();
        lemma_stable_sort(head, before);
        lemma_insert_behind(stable_sort(head, before), s.last(), before);
        assert(s =~= head.push(s.last()));
        let r = stable_sort(s, before);
        assert forall|y: A| s.contains(y) implies r.contains(y) by {
            let k = choose|k: int| 0 <= k < s.len() && s[k] == y;
            if k < head.len() {
                assert(head[k] == y);
                assert(head.contains(y));
                assert(stable_sort(head, before).contains(y));
            }
        }
        assert forall|y: A| #[trigger] r.contains(y) implies s.contains(y) by {
            if y != s.last() {
                assert(stable_sort(head, before).contains(y));
                assert(head.contains(y));
                let k = choose|k: int| 0 <= k < head.len() && head[k] == y;
                assert(s[k] == y);
            } else {
                assert(s[s.len() - 1] == y);
            }
        }
    }
}

/// A sequence that is sorted already is its own stable sort.
pub proof fn lemma_stable_sort_of_sorted<A>(s: Seq<A>, before: spec_fn(A, A) -> bool)
    requires
        sorted(s, before),
    ensures
        stable_sort(s, before) == s,
    decreases s.len(),
{
    if s.len() > 0 {
        let head = s.drop_last();
        assert forall|i: int, j: int| 0 <= i < j < head.len() implies !before(
            #[trigger] head[j],
            #[trigger] head[i],
        ) by {
            assert(head[j] == s[j] && head[i] == s[i]);
        }
        lemma_stable_sort_of_sorted(head, before);
        if head.len() > 0 {
            assert(head.last() == s[s.len() - 2]);
            assert(!before(s[s.len() - 1], s[s.len() - 2]));
        }
        assert(s =~= head.push(s.last()));
    }
}

/// What `dedup_adjacent` keeps: a subsequence whose neighbours differ, in
/// which every element of `s` has one that is `same`.
pub proof fn lemma_dedup_adjacent<A>(s: Seq<A>, same: spec_fn(A, A) -> bool)
    ensures
        dedup_adjacent(s, same).len() <= s.len(),
        s.len() > 0 ==> dedup_adjacent(s, same).len() > 0 && dedup_adjacent(s, same)[0] == s[0],
        forall|i: int|
            0 < i < dedup_adjacent(s, same).len() ==> !same(
                #[trigger] dedup_adjacent(s, same)[i],
                dedup_adjacent(s, same)[i - 1],
            ),
        forall|y: A| dedup_adjacent(s, same).contains(y) ==> s.contains(y),
    decreases s.len(),
{
    if s.len() > 0 {
        let head = s.drop_last();
        lemma_dedup_adjacent(head, same);
        let kept = dedup_adjacent(head, same);
        let r = dedup_adjacent(s, same);
        if head.len() > 0 {
            assert(head[0] == s[0]);
        }
        assert forall|y: A| r.contains(y) implies s.contains(y) by {
            let k = choose|k: int| 0 <= k < r.len() && r[k] == y;
            if k < kept.len() {
                assert(kept[k] == y);
                assert(kept.contains(y));
                assert(head.contains(y));
                let m = choose|m: int| 0 <= m < head.len() && head[m] == y;
                assert(s[m] == y);
            } else {
                assert(s[s.len() - 1] == y);
            }
        }
    }
}

} // verus!
