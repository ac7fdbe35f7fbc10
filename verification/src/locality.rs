//! What holds of local variables: a closure never captures what is declared
//! inside it, and captures what is declared outside it when it refers to it.

use vstd::prelude::*;
use crate::ctx::{escaping, handed_on, CtxView};
use crate::refs::{
    finalize, has_facet, has_plain_writer, manifest_order, manifest_same, ordered, settle,
    DollarRefView,
};
use crate::scope::ScopeView;
use crate::sorting::{dedup_adjacent, insert_behind, stable_sort};

verus! {

/// Whether the innermost capture level has a frame of its own: so it is
/// from the moment the level begins until its frame is closed.
pub open spec fn level_has_frame(c: CtxView) -> bool {
    0 <= c.head() < c.stacks.len()
}

/// The manifest of a single reference is that reference.
pub proof fn lemma_finalize_one(r: DollarRefView)
    ensures
        finalize(seq![r]) == seq![r],
{
    let s = seq![r];
    assert(s.drop_last() =~= Seq::<DollarRefView>::empty());
    assert(stable_sort(s.drop_last(), manifest_order()) =~= Seq::<DollarRefView>::empty());
    assert(insert_behind(Seq::<DollarRefView>::empty(), r, manifest_order()) =~= seq![r]);
    assert(stable_sort(s, manifest_order()) =~= seq![r]);
    assert(dedup_adjacent(s.drop_last(), manifest_same()) =~= Seq::<DollarRefView>::empty());
    assert(dedup_adjacent(s, manifest_same()) =~= seq![r]);
    assert(ordered(s) == s);
    assert(!has_plain_writer(s, r.name.name) || r.builtin is None);
    assert(r.builtin is None ==> !has_facet(s, r.name.name));
    assert(r.settled(s) == Some(r)) by {
        if r.builtin is Some {
            assert(r.with_write(r.write) == r);
        }
    }
    assert(settle(s, s, 0) =~= Seq::<DollarRefView>::empty());
    assert(settle(s, s, 1) =~= seq![r]);
}

/// A variable is local from its declaration on.
pub proof fn declared_is_local(c: CtxView, name: Seq<char>)
    requires
        level_has_frame(c),
    ensures
        c.declare(name).is_local(name),
{
    let d = c.declare(name);
    let i = c.stacks.len() - 1;
    let j = c.stacks[i].len() as int;
    assert(d.stacks[i][j] == name);
}

/// A local variable stays local while the code of its block goes on: in
/// blocks inside it, behind further declarations, and whatever references
/// are recorded.
pub proof fn local_stays_local(c: CtxView, name: Seq<char>, other: Seq<char>, r: DollarRefView)
    requires
        c.is_local(name),
    ensures
        c.push_frame().is_local(name),
        c.declare(other).is_local(name),
        c.add_ref(r).is_local(name),
        c.mark_ctx().is_local(name),
        c.enter_scope(false).is_local(name),
{
    let (i, j) = choose|i: int, j: int|
        c.head() <= i < c.stacks.len() && 0 <= j < c.stacks[i].len() && #[trigger] c.stacks[i][j]
            == name;
    assert(c.push_frame().stacks[i][j] == name);
    assert(c.declare(other).stacks[i][j] == name);
    assert(c.add_ref(r).stacks[i][j] == name);
    assert(c.mark_ctx().stacks[i][j] == name);
    assert(c.enter_scope(false).stacks[i][j] == name);
}

/// A reference to a local variable is not recorded: what a closure declares
/// itself never stands in its manifest.
pub proof fn local_is_never_recorded(c: CtxView, r: DollarRefView)
    requires
        c.is_local(r.host().name),
    ensures
        c.add_ref(r) == c,
{
}

/// A reference to a variable that is not local is recorded in the innermost
/// scope: what a closure uses from outside stands in its manifest.
pub proof fn outside_is_recorded(c: CtxView, r: DollarRefView)
    requires
        c.scopes.len() > 0,
        !c.is_local(r.host().name),
    ensures
        c.add_ref(r).scopes.len() == c.scopes.len(),
        c.add_ref(r).scopes.last().refs == c.scopes.last().refs.push(r),
        c.add_ref(r).scopes.drop_last() == c.scopes.drop_last(),
{
    assert(c.add_ref(r).scopes.drop_last() =~= c.scopes.drop_last());
}

/// Nothing is local where a capturing closure begins: whatever the closure
/// refers to before declaring it, it captures.
pub proof fn nothing_is_local_at_first(c: CtxView, name: Seq<char>)
    requires
        c.wf(),
    ensures
        !c.enter_scope(true).is_local(name),
{
    let d = c.enter_scope(true);
    assert(d.head() == c.stacks.len());
    assert(d.stacks[c.stacks.len() as int].len() == 0);
}

/// What a scope hands on to the scope around it is not local there: a
/// closure inside a closure captures a variable of the outer closure, and
/// the outer closure does not.
pub proof fn handed_on_is_not_local(refs: Seq<DollarRefView>, c: CtxView, k: int)
    requires
        0 <= k < escaping(refs, c).len(),
    ensures
        !c.is_local(escaping(refs, c)[k].host().name),
        refs.contains(escaping(refs, c)[k]),
    decreases refs.len(),
{
    let rest = escaping(refs.drop_last(), c);
    if k < rest.len() {
        handed_on_is_not_local(refs.drop_last(), c, k);
        let x = rest[k];
        let m = choose|m: int| 0 <= m < refs.drop_last().len() && refs.drop_last()[m] == x;
        assert(refs[m] == x);
    } else {
        assert(refs[refs.len() - 1] == refs.last());
    }
}

/// Every reference whose host is not local in `c` is among those that
/// escape, at the place `k`.
pub proof fn lemma_escaping_holds(refs: Seq<DollarRefView>, c: CtxView, i: int) -> (k: int)
    requires
        0 <= i < refs.len(),
        !c.is_local(refs[i].host().name),
    ensures
        0 <= k < escaping(refs, c).len(),
        escaping(refs, c)[k] == refs[i],
    decreases refs.len(),
{
    let rest = escaping(refs.drop_last(), c);
    if i < refs.len() - 1 {
        assert(refs.drop_last()[i] == refs[i]);
        lemma_escaping_holds(refs.drop_last(), c, i)
    } else {
        rest.len() as int
    }
}

/// A scope that is closed hands on what is not local around it: for every
/// entry of its manifest whose host is not local there, the scope around it
/// holds, behind what it held, an entry of that name: the entry itself, or
/// the variable of its name where the scope that is closed has a capture
/// level.
pub proof fn not_local_is_handed_on(c: CtxView, has_capture: bool, i: int) -> (k: int)
    requires
        c.scopes.len() > 1,
        0 <= i < c.scopes.last().finalized().refs.len(),
        !c.outer(has_capture).is_local(c.scopes.last().finalized().refs[i].host().name),
    ensures
        c.leave_scope(has_capture).1 == c.scopes.last().finalized(),
        c.scopes[c.scopes.len() - 2].refs.len() <= k < c.leave_scope(
            has_capture,
        ).0.scopes.last().refs.len(),
        c.leave_scope(has_capture).0.scopes.last().refs[k] == if has_capture {
            c.scopes.last().finalized().refs[i].plain()
        } else {
            c.scopes.last().finalized().refs[i]
        },
{
    let scope = c.scopes.last().finalized();
    let outer = c.outer(has_capture);
    let rest = c.scopes.drop_last();
    assert(rest.last() == c.scopes[c.scopes.len() - 2]);
    let p = lemma_escaping_holds(scope.refs, outer, i);
    let handed = handed_on(escaping(scope.refs, outer), has_capture);
    assert(handed[p] == if has_capture {
        scope.refs[i].plain()
    } else {
        scope.refs[i]
    });
    rest.last().refs.len() + p
}

/// A closure inside a closure that refers to a variable of the outer one
/// captures it alone: when the inner closure ends, the state is as it was
/// before it began, and its manifest is that one reference.
pub proof fn inner_capture_stays_inner(c: CtxView, r: DollarRefView)
    requires
        c.wf(),
        c.scopes.len() > 0,
        c.is_local(r.host().name),
    ensures
        c.enter_scope(true).add_ref(r).leave_scope(true).0 == c,
        c.enter_scope(true).add_ref(r).leave_scope(true).1 == (ScopeView {
            refs: seq![r],
            used_ctx: false,
        }),
{
    let inner = c.enter_scope(true);
    nothing_is_local_at_first(c, r.host().name);
    let recorded = inner.add_ref(r);
    assert(recorded.scopes.last().refs =~= seq![r]);
    lemma_finalize_one(r);
    let outer = recorded.leave_capture_level();
    assert(outer.heads =~= c.heads);
    assert(outer.stacks =~= c.stacks);
    assert(outer.is_local(r.host().name)) by {
        let (i, j) = choose|i: int, j: int|
            c.head() <= i < c.stacks.len() && 0 <= j < c.stacks[i].len()
                && #[trigger] c.stacks[i][j] == r.host().name;
        assert(outer.stacks[i][j] == r.host().name);
    }
    let rest = recorded.scopes.drop_last();
    assert(rest =~= c.scopes);
    assert(seq![r].drop_last() =~= Seq::<DollarRefView>::empty());
    assert(escaping(seq![r].drop_last(), outer) =~= Seq::<DollarRefView>::empty());
    assert(escaping(seq![r], outer) =~= Seq::<DollarRefView>::empty());
    assert(handed_on(Seq::<DollarRefView>::empty(), true) =~= Seq::<DollarRefView>::empty());
    let left = recorded.leave_scope(true);
    assert(left.0.scopes =~= c.scopes);
}

} // verus!
