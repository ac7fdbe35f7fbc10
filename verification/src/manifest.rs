//! What holds of every manifest: its order, its names, and which entry
//! stands for a cell that is both read and written.

use vstd::prelude::*;
use crate::names::{lemma_name_lt_asymmetric, lemma_name_lt_total, name_lt};
use crate::refs::{
    finalize, has_facet, has_plain_writer, lemma_manifest_order, manifest_order, manifest_same,
    ordered, same_variable, settle, sorts_before, DollarRefView,
};
use crate::sorting::{
    dedup_adjacent, lemma_dedup_adjacent, lemma_stable_sort, lemma_stable_sort_of_sorted, sorted,
    stable_sort,
};

verus! {

/// Dropping repeated neighbours keeps a sorted sequence sorted.
pub proof fn lemma_dedup_sorted<A>(
    s: Seq<A>,
    same: spec_fn(A, A) -> bool,
    before: spec_fn(A, A) -> bool,
)
    requires
        sorted(s, before),
    ensures
        sorted(dedup_adjacent(s, same), before),
    decreases s.len(),
{
    if s.len() > 0 {
        let head = s.drop_last();
        assert forall|i: int, j: int| 0 <= i < j < head.len() implies !before(
            #[trigger] head[j],
            #[trigger] head[i],
        ) by {
            assert(head[j] == s[j] && head[i] == s[i]);
        }
        lemma_dedup_sorted(head, same, before);
        lemma_dedup_adjacent(head, same);
        let kept = dedup_adjacent(head, same);
        let d = dedup_adjacent(s, same);
        assert forall|i: int, j: int| 0 <= i < j < d.len() implies !before(
            #[trigger] d[j],
            #[trigger] d[i],
        ) by {
            if j < kept.len() {
                assert(d[j] == kept[j] && d[i] == kept[i]);
            } else {
                assert(d[i] == kept[i]);
                assert(kept.contains(kept[i]));
                assert(head.contains(kept[i]));
                let q = choose|q: int| 0 <= q < head.len() && head[q] == kept[i];
                assert(s[q] == head[q]);
                assert(!before(s[s.len() - 1], s[q]));
            }
        }
    }
}

/// Every element of `s` has one that is `same` among those kept, and that
/// one stands in `s` no later than the element.
pub proof fn lemma_dedup_covers<A>(s: Seq<A>, same: spec_fn(A, A) -> bool, m: int) -> (found: (
    int,
    int,
))
    requires
        0 <= m < s.len(),
        forall|x: A| #[trigger] same(x, x),
    ensures
        0 <= found.0 < dedup_adjacent(s, same).len(),
        0 <= found.1 <= m,
        dedup_adjacent(s, same)[found.0] == s[found.1],
        same(s[m], s[found.1]),
    decreases s.len(),
{
    let head = s.drop_last();
    let kept = dedup_adjacent(head, same);
    let d = dedup_adjacent(s, same);
    lemma_dedup_adjacent(head, same);
    if m == s.len() - 1 {
        if kept.len() > 0 && same(s.last(), kept.last()) {
            assert(kept.contains(kept.last()));
            assert(head.contains(kept.last()));
            let q = choose|q: int| 0 <= q < head.len() && head[q] == kept.last();
            assert(s[q] == head[q]);
            (kept.len() - 1, q)
        } else {
            assert(d == kept.push(s.last()));
            (d.len() - 1, m)
        }
    } else {
        let (k, q) = lemma_dedup_covers(head, same, m);
        assert(head[m] == s[m] && head[q] == s[q]);
        assert(d[k] == kept[k]);
        (k, q)
    }
}

/// Whether a reference of the name `name` is written through in `refs`.
pub open spec fn has_writer(refs: Seq<DollarRefView>, name: Seq<char>) -> bool {
    exists|i: int| 0 <= i < refs.len() && (#[trigger] refs[i]).name.name == name && refs[i].write
}

/// Whether two references go to the same cell or facet: they have the same
/// name and the same facet.
pub open spec fn same_cell(a: DollarRefView, b: DollarRefView) -> bool {
    a.name == b.name && a.builtin == b.builtin
}

/// Whether a reference to the cell or facet of `entry` stands in `refs`.
pub open spec fn holds_cell(refs: Seq<DollarRefView>, entry: DollarRefView) -> bool {
    exists|m: int| 0 <= m < refs.len() && same_cell(#[trigger] refs[m], entry)
}

/// The ordered references are sorted, and stand among the references.
pub proof fn lemma_ordered(refs: Seq<DollarRefView>)
    ensures
        sorted(ordered(refs), manifest_order()),
        forall|k: int| 0 <= k < ordered(refs).len() ==> refs.contains(#[trigger] ordered(refs)[k]),
{
    lemma_manifest_order();
    let sorted_refs = stable_sort(refs, manifest_order());
    lemma_stable_sort(refs, manifest_order());
    lemma_dedup_sorted(sorted_refs, manifest_same(), manifest_order());
    lemma_dedup_adjacent(sorted_refs, manifest_same());
    let list = ordered(refs);
    assert forall|k: int| 0 <= k < list.len() implies refs.contains(#[trigger] list[k]) by {
        assert(list.contains(list[k]));
        assert(sorted_refs.contains(list[k]));
    }
}

/// Among the ordered references no two facets have one name, and no two
/// ordinary cells.
pub proof fn lemma_ordered_unique(refs: Seq<DollarRefView>, i: int, j: int)
    requires
        0 <= i < j < ordered(refs).len(),
        (ordered(refs)[i].builtin is Some) == (ordered(refs)[j].builtin is Some),
    ensures
        ordered(refs)[i].name.name != ordered(refs)[j].name.name,
{
    lemma_ordered(refs);
    let sorted_refs = stable_sort(refs, manifest_order());
    lemma_dedup_adjacent(sorted_refs, manifest_same());
    let out = ordered(refs);
    let a = out[i];
    let b = out[i + 1];
    let c = out[j];
    assert(!manifest_same()(out[i + 1], out[i]));
    if a.name.name == c.name.name {
        if i + 1 < j {
            assert(!manifest_order()(out[i + 1], out[i]));
            assert(!manifest_order()(out[j], out[i + 1]));
            assert(!sorts_before(b, a));
            assert(!sorts_before(c, b));
            lemma_name_lt_total(a.name.name, b.name.name);
            if name_lt(a.name.name, b.name.name) {
                lemma_name_lt_asymmetric(a.name.name, b.name.name);
            }
        }
    }
}

/// Every reference has one of its name among the ordered references, met
/// no later in the order of manifests: one that is a writer if the
/// reference is and both are facets or both ordinary cells, and a facet if
/// they are of different kinds.
pub proof fn lemma_ordered_covers(refs: Seq<DollarRefView>, r: DollarRefView) -> (k: int)
    requires
        refs.contains(r),
    ensures
        0 <= k < ordered(refs).len(),
        same_variable(ordered(refs)[k], r),
        refs.contains(ordered(refs)[k]),
        (ordered(refs)[k].builtin is Some) == (r.builtin is Some) ==> (r.write ==> ordered(
            refs,
        )[k].write),
        (ordered(refs)[k].builtin is Some) != (r.builtin is Some) ==> ordered(refs)[k].builtin
            is Some,
{
    lemma_manifest_order();
    lemma_ordered(refs);
    let sorted_refs = stable_sort(refs, manifest_order());
    lemma_stable_sort(refs, manifest_order());
    assert(sorted_refs.contains(r));
    let m = choose|m: int| 0 <= m < sorted_refs.len() && sorted_refs[m] == r;
    let (k, q) = lemma_dedup_covers(sorted_refs, manifest_same(), m);
    let first = sorted_refs[q];
    assert(manifest_same()(sorted_refs[m], sorted_refs[q]));
    assert(same_variable(first, r));
    if q < m {
        assert(!manifest_order()(sorted_refs[m], sorted_refs[q]));
        assert(!sorts_before(r, first));
    }
    k
}

/// Where an entry of what is settled comes from.
pub proof fn lemma_settle_source(
    list: Seq<DollarRefView>,
    all: Seq<DollarRefView>,
    k: int,
    p: int,
) -> (i: int)
    requires
        0 <= k <= list.len(),
        0 <= p < settle(list, all, k).len(),
    ensures
        0 <= i < k,
        list[i].settled(all) == Some(settle(list, all, k)[p]),
    decreases k,
{
    let prev = settle(list, all, k - 1);
    if p < prev.len() {
        lemma_settle_source(list, all, k - 1, p)
    } else {
        k - 1
    }
}

/// What is settled stands in the order of the list.
pub proof fn lemma_settle_order(
    list: Seq<DollarRefView>,
    all: Seq<DollarRefView>,
    k: int,
    p: int,
    q: int,
) -> (found: (int, int))
    requires
        0 <= k <= list.len(),
        0 <= p < q < settle(list, all, k).len(),
    ensures
        0 <= found.0 < found.1 < k,
        list[found.0].settled(all) == Some(settle(list, all, k)[p]),
        list[found.1].settled(all) == Some(settle(list, all, k)[q]),
    decreases k,
{
    let prev = settle(list, all, k - 1);
    if q < prev.len() {
        lemma_settle_order(list, all, k - 1, p, q)
    } else {
        let i = lemma_settle_source(list, all, k - 1, p);
        (i, k - 1)
    }
}

/// What an entry of the list settles to stands in what is settled.
pub proof fn lemma_settle_holds(list: Seq<DollarRefView>, all: Seq<DollarRefView>, k: int, i: int)
    -> (p: int)
    requires
        0 <= i < k <= list.len(),
        list[i].settled(all) is Some,
    ensures
        0 <= p < settle(list, all, k).len(),
        settle(list, all, k)[p] == list[i].settled(all)->0,
    decreases k,
{
    let prev = settle(list, all, k - 1);
    if i == k - 1 {
        prev.len() as int
    } else {
        lemma_settle_holds(list, all, k - 1, i)
    }
}

/// The entry of the ordered references that an entry of a manifest stands
/// for: it has the name and the facet of the entry, and is one of the
/// references.
pub proof fn lemma_manifest_source(refs: Seq<DollarRefView>, p: int) -> (i: int)
    requires
        0 <= p < finalize(refs).len(),
    ensures
        0 <= i < ordered(refs).len(),
        ordered(refs)[i].settled(refs) == Some(finalize(refs)[p]),
        same_cell(ordered(refs)[i], finalize(refs)[p]),
        refs.contains(ordered(refs)[i]),
{
    lemma_ordered(refs);
    lemma_settle_source(ordered(refs), refs, ordered(refs).len() as int, p)
}

/// In a manifest the facets stand before the ordinary cells: the code that
/// reaches a facet through its host runs before a cell of the host's name is
/// bound anew.
pub proof fn facets_stand_first(refs: Seq<DollarRefView>, i: int, j: int)
    requires
        0 <= i < j < finalize(refs).len(),
        finalize(refs)[j].builtin is Some,
    ensures
        finalize(refs)[i].builtin is Some,
{
    lemma_ordered(refs);
    let list = ordered(refs);
    let (a, b) = lemma_settle_order(list, refs, list.len() as int, i, j);
    assert(!manifest_order()(list[b], list[a]));
}

/// A manifest holds no name twice.
pub proof fn no_name_twice(refs: Seq<DollarRefView>, i: int, j: int)
    requires
        0 <= i < j < finalize(refs).len(),
    ensures
        finalize(refs)[i].name.name != finalize(refs)[j].name.name,
{
    lemma_ordered(refs);
    let list = ordered(refs);
    let (a, b) = lemma_settle_order(list, refs, list.len() as int, i, j);
    if (list[a].builtin is Some) == (list[b].builtin is Some) {
        lemma_ordered_unique(refs, a, b);
    } else {
        assert(!manifest_order()(list[b], list[a]));
        // a facet before an ordinary cell: the cell would have given way
        assert(refs.contains(list[a]));
        let m = choose|m: int| 0 <= m < refs.len() && refs[m] == list[a];
        if list[a].name.name == list[b].name.name {
            assert(refs[m].builtin is Some && refs[m].name.name == list[b].name.name);
            assert(has_facet(refs, list[b].name.name));
        }
    }
}

/// A manifest holds the names of the references recorded, each with the
/// facet of a reference of that name, and no others.
pub proof fn manifest_keeps_names(refs: Seq<DollarRefView>)
    ensures
        forall|r: DollarRefView| #[trigger]
            refs.contains(r) ==> exists|k: int|
                0 <= k < finalize(refs).len() && #[trigger] same_variable(finalize(refs)[k], r),
        forall|k: int|
            0 <= k < finalize(refs).len() ==> holds_cell(refs, #[trigger] finalize(refs)[k]),
{
    let list = ordered(refs);
    let out = finalize(refs);
    assert forall|r: DollarRefView| #[trigger] refs.contains(r) implies exists|k: int|
        0 <= k < out.len() && #[trigger] same_variable(out[k], r) by {
        let k = lemma_entry_of(refs, r);
        assert(same_variable(out[k], r));
    }
    assert forall|k: int| 0 <= k < out.len() implies holds_cell(refs, #[trigger] out[k]) by {
        let i = lemma_manifest_source(refs, k);
        let m = choose|m: int| 0 <= m < refs.len() && refs[m] == list[i];
        assert(same_cell(refs[m], out[k]));
    }
}

/// The entry that a manifest holds for a reference.
pub proof fn lemma_entry_of(refs: Seq<DollarRefView>, r: DollarRefView) -> (p: int)
    requires
        refs.contains(r),
    ensures
        0 <= p < finalize(refs).len(),
        same_variable(finalize(refs)[p], r),
{
    let list = ordered(refs);
    let k = lemma_ordered_covers(refs, r);
    if list[k].settled(refs) is Some {
        lemma_settle_holds(list, refs, list.len() as int, k)
    } else {
        // an ordinary cell of the name of a facet: the facet stands for it
        let m = choose|m: int|
            0 <= m < refs.len() && (#[trigger] refs[m]).builtin is Some && refs[m].name.name
                == list[k].name.name;
        assert(refs.contains(refs[m]));
        let f = lemma_ordered_covers(refs, refs[m]);
        lemma_settle_holds(list, refs, list.len() as int, f)
    }
}

/// The entry of a name in a manifest is a writer exactly if a reference of
/// that name is written through: of a reader and a writer of one name, the
/// writer stays.
pub proof fn writer_wins(refs: Seq<DollarRefView>, p: int)
    requires
        0 <= p < finalize(refs).len(),
    ensures
        finalize(refs)[p].write == has_writer(refs, finalize(refs)[p].name.name),
{
    let list = ordered(refs);
    let out = finalize(refs);
    let i = lemma_manifest_source(refs, p);
    let name = out[p].name.name;
    let mine = choose|m: int| 0 <= m < refs.len() && refs[m] == list[i];
    if out[p].write {
        if list[i].write {
            assert(refs[mine].name.name == name && refs[mine].write);
        } else {
            let m = choose|m: int|
                0 <= m < refs.len() && (#[trigger] refs[m]).builtin is None && refs[m].name.name
                    == name && refs[m].write;
            assert(refs[m].name.name == name && refs[m].write);
        }
    }
    if has_writer(refs, name) {
        let m = choose|m: int|
            0 <= m < refs.len() && (#[trigger] refs[m]).name.name == name && refs[m].write;
        let e = refs[m];
        assert(refs.contains(e));
        let k = lemma_ordered_covers(refs, e);
        if (list[k].builtin is Some) == (list[i].builtin is Some) {
            // one entry of a name among the facets, one among the cells
            if k < i {
                lemma_ordered_unique(refs, k, i);
            } else if i < k {
                lemma_ordered_unique(refs, i, k);
            }
            if (e.builtin is Some) != (list[k].builtin is Some) {
                assert(e.builtin is None);
                assert(has_plain_writer(refs, name));
            }
        } else if list[i].builtin is Some {
            // the writer is an ordinary cell, for which the facet stands
            assert(list[k].builtin is None);
            assert(e.builtin is None);
            assert(has_plain_writer(refs, name));
        } else {
            // a facet of the name: the ordinary cell would have given way
            let f = choose|f: int| 0 <= f < refs.len() && refs[f] == list[k];
            assert(refs[f].builtin is Some && refs[f].name.name == name);
            assert(has_facet(refs, name));
        }
    }
}

/// A sequence in which no neighbours are the same loses nothing.
pub proof fn lemma_dedup_of_distinct<A>(s: Seq<A>, same: spec_fn(A, A) -> bool)
    requires
        forall|i: int| 0 <= i < s.len() - 1 ==> !same(#[trigger] s[i + 1], s[i]),
    ensures
        dedup_adjacent(s, same) == s,
    decreases s.len(),
{
    if s.len() > 0 {
        let head = s.drop_last();
        assert forall|i: int| 0 <= i < head.len() - 1 implies !same(
            #[trigger] head[i + 1],
            head[i],
        ) by {
            assert(head[i + 1] == s[i + 1] && head[i] == s[i]);
        }
        lemma_dedup_of_distinct(head, same);
        if head.len() > 0 {
            assert(head.last() == s[s.len() - 2]);
            assert(!same(s[s.len() - 2 + 1], s[s.len() - 2]));
        }
        assert(s =~= head.push(s.last()));
    }
}

/// Entries that all settle to themselves are settled as they are.
pub proof fn lemma_settle_of_settled(list: Seq<DollarRefView>, k: int)
    requires
        0 <= k <= list.len(),
        forall|i: int| 0 <= i < list.len() ==> (#[trigger] list[i]).settled(list) == Some(list[i]),
    ensures
        settle(list, list, k) == list.take(k),
    decreases k,
{
    if k > 0 {
        lemma_settle_of_settled(list, k - 1);
        assert(list.take(k) =~= list.take(k - 1).push(list[k - 1]));
    } else {
        assert(list.take(0) =~= Seq::<DollarRefView>::empty());
    }
}

/// A manifest is final: made into a manifest once more, it stays as it is.
pub proof fn a_manifest_is_final(refs: Seq<DollarRefView>)
    ensures
        finalize(finalize(refs)) == finalize(refs),
{
    let out = finalize(refs);
    let list = ordered(refs);
    lemma_ordered(refs);
    assert forall|i: int, j: int| 0 <= i < j < out.len() implies !manifest_order()(
        #[trigger] out[j],
        #[trigger] out[i],
    ) by {
        let (a, b) = lemma_settle_order(list, refs, list.len() as int, i, j);
        assert(!manifest_order()(list[b], list[a]));
        no_name_twice(refs, i, j);
    }
    lemma_stable_sort_of_sorted(out, manifest_order());
    assert forall|i: int| 0 <= i < out.len() - 1 implies !manifest_same()(
        #[trigger] out[i + 1],
        out[i],
    ) by {
        no_name_twice(refs, i, i + 1);
    }
    lemma_dedup_of_distinct(out, manifest_same());
    assert(ordered(out) == out);
    assert forall|i: int| 0 <= i < out.len() implies (#[trigger] out[i]).settled(out) == Some(
        out[i],
    ) by {
        let name = out[i].name.name;
        if out[i].builtin is Some {
            if has_plain_writer(out, name) {
                let m = choose|m: int|
                    0 <= m < out.len() && (#[trigger] out[m]).builtin is None && out[m].name.name
                        == name && out[m].write;
                if m < i {
                    no_name_twice(refs, m, i);
                } else {
                    no_name_twice(refs, i, m);
                }
            }
            assert(out[i].with_write(out[i].write) == out[i]);
        } else {
            if has_facet(out, name) {
                let m = choose|m: int|
                    0 <= m < out.len() && (#[trigger] out[m]).builtin is Some && out[m].name.name
                        == name;
                if m < i {
                    no_name_twice(refs, m, i);
                } else {
                    no_name_twice(refs, i, m);
                }
            }
        }
    }
    lemma_settle_of_settled(out, out.len() as int);
    assert(out.take(out.len() as int) =~= out);
}

} // verus!
