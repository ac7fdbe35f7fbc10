//! What a closure captures: every cell that its code refers to from outside
//! stands in its manifest, once.

use vstd::prelude::*;
use crate::analysis::{
    fold_closure, fold_expr, fold_macro, macro_kind, parse_reference, plain_ref, ready,
    MacroKind,
};
use crate::builtin::BuiltinTableView;
use crate::ctx::CtxView;
use crate::expr::ExprView;
use crate::fn_widget::analyzed;
use crate::locality::{local_is_never_recorded, nothing_is_local_at_first, outside_is_recorded};
use crate::manifest::{holds_cell, manifest_keeps_names, no_name_twice, same_cell};
use crate::recorded::{
    direct, handed_in, lemma_fold_closure_grown, lemma_fold_expr_grown, mentioned_in, mentions,
    sound, taken_over,
};
use crate::referred::{
    lemma_fold_closure_found, lemma_fold_expr_found, refers_first, refers_first_inside,
};
use crate::refs::{finalize, same_variable, DollarRefView};

verus! {

/// The references that the analysis of the capturing closure `e` records
/// for the closure, in the order in which it meets them.
pub open spec fn recorded_by(c: CtxView, e: ExprView, t: BuiltinTableView) -> Seq<DollarRefView>
    recommends
        fold_closure(c.enter_scope(true), e, t) is Ok,
{
    fold_closure(c.enter_scope(true), e, t)->Ok_0.0.scopes.last().refs
}

/// Whether the entry `k` of `manifest`, and no other, has the name `name`.
pub open spec fn only_entry_of(manifest: Seq<DollarRefView>, name: Seq<char>, k: int) -> bool {
    &&& 0 <= k < manifest.len()
    &&& forall|j: int|
        0 <= j < manifest.len() ==> ((#[trigger] manifest[j]).name.name == name <==> j == k)
}

/// Whether exactly one entry of `manifest` has the name `name`.
pub open spec fn stands_once(manifest: Seq<DollarRefView>, name: Seq<char>) -> bool {
    exists|k: int| only_entry_of(manifest, name, k)
}

/// Whether `r` is a reference to the cell `name`, recorded in `refs`, whose
/// name stands exactly once in `manifest`.
pub open spec fn stands_for(
    r: DollarRefView,
    name: Seq<char>,
    refs: Seq<DollarRefView>,
    manifest: Seq<DollarRefView>,
) -> bool {
    refs.contains(r) && r.host().name == name && stands_once(manifest, r.name.name)
}

/// A reference to a cell is recorded where it stands, behind what has been
/// recorded, unless the cell is local there: then nothing changes.
pub proof fn a_reference_is_recorded_where_it_stands(c: CtxView, e: ExprView, t: BuiltinTableView)
    requires
        c.scopes.len() > 0,
        e is Macro,
        macro_kind(e->path.name) == MacroKind::Reference,
        parse_reference(e->tokens) is Some,
    ensures
        fold_expr(c, e, t) is Ok,
        c.is_local(parse_reference(e->tokens)->0.name) ==> fold_expr(c, e, t)->Ok_0.0 == c,
        !c.is_local(parse_reference(e->tokens)->0.name) ==> fold_expr(
            c,
            e,
            t,
        )->Ok_0.0.scopes.last().refs == c.scopes.last().refs.push(
            plain_ref(parse_reference(e->tokens)->0, false),
        ),
{
    let r = plain_ref(parse_reference(e->tokens)->0, false);
    assert(fold_expr(c, e, t) == fold_macro(c, e, t));
    assert(fold_macro(c, e, t)->Ok_0.0 == c.add_ref(r));
    if c.is_local(r.host().name) {
        local_is_never_recorded(c, r);
    } else {
        outside_is_recorded(c, r);
    }
}

/// What a scope has recorded it holds, at the same place, whatever code is
/// analysed after it.
pub proof fn recorded_stays_recorded(c: CtxView, e: ExprView, t: BuiltinTableView, k: int)
    requires
        ready(c),
        fold_expr(c, e, t) is Ok,
        0 <= k < c.scopes.last().refs.len(),
    ensures
        k < fold_expr(c, e, t)->Ok_0.0.scopes.last().refs.len(),
        fold_expr(c, e, t)->Ok_0.0.scopes.last().refs[k] == c.scopes.last().refs[k],
{
    lemma_fold_expr_grown(c, e, t);
}

/// A capturing closure comes with its manifest if its analysis has recorded
/// a reference, and the manifest is made of what was recorded: the name of
/// every reference recorded stands in it exactly once.
pub proof fn closure_captures_each_name_once(
    c: CtxView,
    e: ExprView,
    t: BuiltinTableView,
    r: DollarRefView,
)
    requires
        e is Closure,
        e->capture,
        fold_expr(c, e, t) is Ok,
        recorded_by(c, e, t).contains(r),
    ensures
        fold_expr(c, e, t)->Ok_0.1 is Captured,
        fold_expr(c, e, t)->Ok_0.1->Captured_scope.refs == finalize(recorded_by(c, e, t)),
        stands_once(fold_expr(c, e, t)->Ok_0.1->Captured_scope.refs, r.name.name),
{
    let refs = recorded_by(c, e, t);
    let manifest = finalize(refs);
    manifest_keeps_names(refs);
    let k = choose|k: int| 0 <= k < manifest.len() && #[trigger] same_variable(manifest[k], r);
    assert forall|j: int| 0 <= j < manifest.len() && (#[trigger] manifest[j]).name.name
        == r.name.name implies j == k by {
        if j < k {
            no_name_twice(refs, j, k);
        } else if k < j {
            no_name_twice(refs, k, j);
        }
    }
    assert(only_entry_of(manifest, r.name.name, k));
}

/// The manifest of a capturing closure holds nothing but what the analysis
/// of the closure has recorded: every entry is the cell or facet of a
/// reference recorded.
pub proof fn closure_captures_what_is_recorded(
    c: CtxView,
    e: ExprView,
    t: BuiltinTableView,
    k: int,
)
    requires
        e is Closure,
        e->capture,
        fold_expr(c, e, t) is Ok,
        fold_expr(c, e, t)->Ok_0.1 is Captured,
        0 <= k < fold_expr(c, e, t)->Ok_0.1->Captured_scope.refs.len(),
    ensures
        holds_cell(recorded_by(c, e, t), fold_expr(c, e, t)->Ok_0.1->Captured_scope.refs[k]),
{
    manifest_keeps_names(recorded_by(c, e, t));
}

/// A capturing closure captures what it refers to. A cell that the closure
/// refers to in its parameters or its body, before it declares a variable of
/// that name, stands in its manifest: the closure comes with the manifest, a reference
/// to the cell was recorded for it, and the name of that reference stands in
/// the manifest exactly once. What a closure, a derived value or a deferred
/// widget inside the closure refers to stands in the manifest of that one.
pub proof fn closure_captures_what_it_refers_to(
    c: CtxView,
    e: ExprView,
    t: BuiltinTableView,
    name: Seq<char>,
)
    requires
        ready(c),
        e is Closure,
        e->capture,
        fold_expr(c, e, t) is Ok,
        refers_first_inside(e, name),
    ensures
        fold_expr(c, e, t)->Ok_0.1 is Captured,
        exists|r: DollarRefView| #[trigger]
            stands_for(
                r,
                name,
                recorded_by(c, e, t),
                fold_expr(c, e, t)->Ok_0.1->Captured_scope.refs,
            ),
{
    let opened = c.enter_scope(true);
    nothing_is_local_at_first(c, name);
    lemma_fold_closure_found(opened, e, t, name);
    let c1 = fold_closure(opened, e, t)->Ok_0.0;
    let k = choose|k: int|
        opened.scopes.last().refs.len() <= k < c1.scopes.last().refs.len() && (
        #[trigger] c1.scopes.last().refs[k]).host().name == name;
    let r = c1.scopes.last().refs[k];
    assert(recorded_by(c, e, t).contains(r));
    closure_captures_each_name_once(c, e, t, r);
    assert(stands_for(
        r,
        name,
        recorded_by(c, e, t),
        fold_expr(c, e, t)->Ok_0.1->Captured_scope.refs,
    ));
}

/// A capturing closure captures nothing but what it refers to: every entry
/// of its manifest goes to a cell that a reference in the closure names, or
/// is the variable of a facet of such a cell, taken over from a closure
/// inside it.
pub proof fn closure_captures_only_what_it_mentions(
    c: CtxView,
    e: ExprView,
    t: BuiltinTableView,
    k: int,
)
    requires
        ready(c),
        e is Closure,
        e->capture,
        fold_expr(c, e, t) is Ok,
        fold_expr(c, e, t)->Ok_0.1 is Captured,
        0 <= k < fold_expr(c, e, t)->Ok_0.1->Captured_scope.refs.len(),
    ensures
        mentions(e, fold_expr(c, e, t)->Ok_0.1->Captured_scope.refs[k].host().name) || handed_in(
            fold_expr(c, e, t)->Ok_0.1->Captured_scope.refs[k],
            mentioned_in(e),
        ),
{
    let opened = c.enter_scope(true);
    lemma_fold_closure_grown(opened, e, t);
    let refs = recorded_by(c, e, t);
    let manifest = finalize(refs);
    manifest_keeps_names(refs);
    assert(holds_cell(refs, manifest[k]));
    let m = choose|m: int| 0 <= m < refs.len() && same_cell(#[trigger] refs[m], manifest[k]);
    assert(opened.scopes.last().refs.len() == 0);
    assert(sound(opened, refs[m], mentioned_in(e)));
    assert(refs[m].host() == manifest[k].host());
    if direct(opened, refs[m], mentioned_in(e)) {
        assert(mentioned_in(e)(refs[m].host().name));
    } else {
        let host = choose|host: Seq<char>| #[trigger] taken_over(refs[m], host, mentioned_in(e));
        assert(taken_over(manifest[k], host, mentioned_in(e)));
    }
}

/// Code that is analysed on its own has in its manifest what it refers to:
/// a cell that the code refers to in its own scope, before it declares a
/// variable of that name, was recorded, and the name of that reference stands in the manifest
/// exactly once.
pub proof fn manifest_holds_what_the_code_refers_to(
    e: ExprView,
    t: BuiltinTableView,
    name: Seq<char>,
)
    requires
        analyzed(e, t) is Ok,
        refers_first(e, name),
    ensures
        exists|r: DollarRefView| #[trigger]
            stands_for(
                r,
                name,
                fold_expr(CtxView::top_level(), e, t)->Ok_0.0.scopes.last().refs,
                analyzed(e, t)->Ok_0.1.refs,
            ),
{
    let top = CtxView::top_level();
    assert(!top.is_local(name)) by {
        if top.is_local(name) {
            let (i, j) = choose|i: int, j: int|
                top.head() <= i < top.stacks.len() && 0 <= j < top.stacks[i].len()
                    && #[trigger] top.stacks[i][j] == name;
        }
    }
    lemma_fold_expr_found(top, e, t, name);
    let c1 = fold_expr(top, e, t)->Ok_0.0;
    let refs = c1.scopes.last().refs;
    let k = choose|k: int|
        top.scopes.last().refs.len() <= k < c1.scopes.last().refs.len() && (
        #[trigger] c1.scopes.last().refs[k]).host().name == name;
    let r = refs[k];
    assert(refs.contains(r));
    let manifest = finalize(refs);
    assert(analyzed(e, t)->Ok_0.1.refs == manifest);
    manifest_keeps_names(refs);
    let p = choose|p: int| 0 <= p < manifest.len() && #[trigger] same_variable(manifest[p], r);
    assert forall|j: int| 0 <= j < manifest.len() && (#[trigger] manifest[j]).name.name
        == r.name.name implies j == p by {
        if j < p {
            no_name_twice(refs, j, p);
        } else if p < j {
            no_name_twice(refs, p, j);
        }
    }
    assert(only_entry_of(manifest, r.name.name, p));
    assert(stands_for(r, name, refs, manifest));
}

} // verus!
