//! Where the references of a manifest come from: each of them stands in the
//! code that was analysed, and none of them goes to a variable that was
//! local there.

use vstd::prelude::*;
use crate::analysis::{
    expanded, facet_ref, fold_closure, fold_expr, fold_field, fold_in_place, fold_list,
    fold_macro, fold_method_call, fold_scoped, is_write_method, lemma_fold_closure_shape,
    lemma_fold_expr_shape, lemma_fold_list_shape, lemma_replace_builtin_shape, macro_kind,
    parse_reference, path_span, plain_ref, ready, reference_of, replace_builtin,
    replace_reference, MacroKind,
};
use crate::builtin::{lookup, snake_case_of, BuiltinTableView};
use crate::codegen::ident_token;
use crate::ctx::{escaping, handed_on, CtxView};
use crate::expr::{ExprView, MemberView};
use crate::fn_widget::analyzed;
use crate::hygiene::{
    kept, lemma_fold_closure_kept, lemma_fold_expr_kept, lemma_fold_list_kept, lemma_kept_local,
    lemma_kept_scope, lemma_kept_trans, lemma_mark_kept, lemma_replace_builtin_kept,
    lemma_replace_reference_kept,
};
use crate::locality::handed_on_is_not_local;
use crate::manifest::{holds_cell, manifest_keeps_names, same_cell};
use crate::refs::{finalize, DollarRefView};

verus! {

/// Whether a reference to the cell `name` stands in `e`.
pub open spec fn mentions(e: ExprView, name: Seq<char>) -> bool
    decreases e,
{
    match e {
        ExprView::Syntax { parts } => mentions_any(parts, name),
        ExprView::Block { parts } => mentions_any(parts, name),
        ExprView::Closure { inputs, body, .. } => mentions_any(inputs, name) || mentions(
            *body,
            name,
        ),
        ExprView::Local { pat, init } => mentions(*pat, name) || match init {
            Some(i) => mentions(*i, name),
            None => false,
        },
        ExprView::PatIdent { subpat, .. } => match subpat {
            Some(s) => mentions(*s, name),
            None => false,
        },
        ExprView::ItemConst { parts, .. } => mentions_any(parts, name),
        ExprView::Field { base, .. } => mentions(*base, name),
        ExprView::MethodCall { receiver, args, .. } => mentions(*receiver, name) || mentions_any(
            args,
            name,
        ),
        ExprView::Macro { path, tokens, code } => (macro_kind(path.name) == MacroKind::Reference
            && parse_reference(tokens) is Some && parse_reference(tokens)->0.name == name)
            || mentions_any(code, name),
        ExprView::Generated { .. } => false,
        ExprView::Captured { .. } => false,
        ExprView::WithCtx { .. } => false,
    }
}

/// Whether a reference to the cell `name` stands in one of `parts`.
pub open spec fn mentions_any(parts: Seq<ExprView>, name: Seq<char>) -> bool
    decreases parts,
{
    parts.len() > 0 && (mentions_any(parts.drop_last(), name) || mentions(parts.last(), name))
}

/// The name of the variable that stands for the facet `facet` of `host`.
pub open spec fn facet_name(host: Seq<char>, facet: Seq<char>) -> Seq<char> {
    host + "_"@ + facet
}

/// Whether `name` is the name of a variable that stands for a facet of
/// `host`.
pub open spec fn is_facet_of(name: Seq<char>, host: Seq<char>) -> bool {
    exists|facet: Seq<char>| #[trigger] facet_name(host, facet) == name
}

/// Whether the reference `r` goes to a cell that `stands` holds of and that
/// is not local in `c`, and, if it goes to a facet, has the name of a facet
/// of that cell.
pub open spec fn direct(c: CtxView, r: DollarRefView, stands: spec_fn(Seq<char>) -> bool) -> bool {
    &&& stands(r.host().name)
    &&& !c.is_local(r.host().name)
    &&& r.builtin is Some ==> is_facet_of(r.name.name, r.host().name)
}

/// Whether `r` is the variable of a facet of the cell `host`, taken over
/// from a capturing scope that has taken the facet for itself.
pub open spec fn taken_over(r: DollarRefView, host: Seq<char>, stands: spec_fn(Seq<char>) -> bool)
    -> bool {
    r.builtin is None && stands(host) && is_facet_of(r.name.name, host)
}

/// Whether `r` is the variable of a facet of a cell that `stands` holds of.
pub open spec fn handed_in(r: DollarRefView, stands: spec_fn(Seq<char>) -> bool) -> bool {
    exists|host: Seq<char>| #[trigger] taken_over(r, host, stands)
}

/// Whether the reference `r` can have been recorded by code that was
/// analysed from the state `c` on and mentions what `stands` holds of: it
/// goes to a cell that the code mentions and that was not local in `c`, or
/// it is the variable of a facet of such a cell, taken over from a closure
/// in the code.
pub open spec fn sound(c: CtxView, r: DollarRefView, stands: spec_fn(Seq<char>) -> bool) -> bool {
    direct(c, r, stands) || handed_in(r, stands)
}

/// What is sound by less is sound by more.
pub proof fn lemma_sound_within(
    c: CtxView,
    r: DollarRefView,
    narrow: spec_fn(Seq<char>) -> bool,
    wide: spec_fn(Seq<char>) -> bool,
)
    requires
        sound(c, r, narrow),
        within(narrow, wide),
    ensures
        sound(c, r, wide),
{
    if direct(c, r, narrow) {
        assert(narrow(r.host().name));
    } else {
        let host = choose|host: Seq<char>| #[trigger] taken_over(r, host, narrow);
        assert(narrow(host));
        assert(taken_over(r, host, wide));
    }
}

/// What is sound in a state is sound in a state in which its cell is local
/// only if it is local in the first.
pub proof fn lemma_sound_from(
    outer: CtxView,
    inner: CtxView,
    r: DollarRefView,
    stands: spec_fn(Seq<char>) -> bool,
)
    requires
        sound(inner, r, stands),
        outer.is_local(r.host().name) ==> inner.is_local(r.host().name),
    ensures
        sound(outer, r, stands),
{
}

/// Whether the innermost scope of `c1` holds what that of `c` holds and,
/// behind it, references that can have been recorded since.
pub open spec fn grown(c: CtxView, c1: CtxView, stands: spec_fn(Seq<char>) -> bool) -> bool {
    &&& c.scopes.len() > 0
    &&& c1.scopes.len() > 0
    &&& c.scopes.last().refs.len() <= c1.scopes.last().refs.len()
    &&& forall|k: int|
        0 <= k < c.scopes.last().refs.len() ==> #[trigger] c1.scopes.last().refs[k]
            == c.scopes.last().refs[k]
    &&& forall|k: int|
        c.scopes.last().refs.len() <= k < c1.scopes.last().refs.len() ==> sound(
            c,
            #[trigger] c1.scopes.last().refs[k],
            stands,
        )
}

/// The test for [`mentions`], as a value.
pub open spec fn mentioned_in(e: ExprView) -> spec_fn(Seq<char>) -> bool {
    |name: Seq<char>| mentions(e, name)
}

/// The test for [`mentions_any`], as a value.
pub open spec fn mentioned_in_any(parts: Seq<ExprView>) -> spec_fn(Seq<char>) -> bool {
    |name: Seq<char>| mentions_any(parts, name)
}

/// Whether `wide` holds of everything that `narrow` holds of.
pub open spec fn within(narrow: spec_fn(Seq<char>) -> bool, wide: spec_fn(Seq<char>) -> bool)
    -> bool {
    forall|name: Seq<char>| #[trigger] narrow(name) ==> wide(name)
}

/// Growth goes on: what has grown from `c` to `c1` and from there to `c2`
/// has grown from `c` to `c2`.
pub proof fn lemma_grown_trans(
    c: CtxView,
    c1: CtxView,
    c2: CtxView,
    first: spec_fn(Seq<char>) -> bool,
    second: spec_fn(Seq<char>) -> bool,
    stands: spec_fn(Seq<char>) -> bool,
)
    requires
        kept(c, c1),
        grown(c, c1, first),
        grown(c1, c2, second),
        within(first, stands),
        within(second, stands),
    ensures
        grown(c, c2, stands),
{
    let old_refs = c.scopes.last().refs;
    let mid_refs = c1.scopes.last().refs;
    let new_refs = c2.scopes.last().refs;
    assert forall|k: int| 0 <= k < old_refs.len() implies #[trigger] new_refs[k] == old_refs[k] by {
        assert(mid_refs[k] == old_refs[k]);
    }
    assert forall|k: int| old_refs.len() <= k < new_refs.len() implies sound(
        c,
        #[trigger] new_refs[k],
        stands,
    ) by {
        if k < mid_refs.len() {
            assert(new_refs[k] == mid_refs[k]);
            assert(sound(c, mid_refs[k], first));
            lemma_sound_within(c, mid_refs[k], first, stands);
        } else {
            assert(sound(c1, new_refs[k], second));
            lemma_sound_within(c1, new_refs[k], second, stands);
            if c.is_local(new_refs[k].host().name) {
                lemma_kept_local(c, c1, new_refs[k].host().name);
            }
            lemma_sound_from(c, c1, new_refs[k], stands);
        }
    }
}

/// Growth by less is growth by more.
pub proof fn lemma_grown_within(
    c: CtxView,
    c1: CtxView,
    narrow: spec_fn(Seq<char>) -> bool,
    wide: spec_fn(Seq<char>) -> bool,
)
    requires
        grown(c, c1, narrow),
        within(narrow, wide),
    ensures
        grown(c, c1, wide),
{
    let old_refs = c.scopes.last().refs;
    let new_refs = c1.scopes.last().refs;
    assert forall|k: int| old_refs.len() <= k < new_refs.len() implies sound(
        c,
        #[trigger] new_refs[k],
        wide,
    ) by {
        assert(sound(c, new_refs[k], narrow));
        lemma_sound_within(c, new_refs[k], narrow, wide);
    }
}

/// Recording one reference is growth, if the code mentions its cell.
pub proof fn lemma_add_ref_grown(c: CtxView, r: DollarRefView, stands: spec_fn(Seq<char>) -> bool)
    requires
        ready(c),
        stands(r.host().name),
        r.builtin is Some ==> is_facet_of(r.name.name, r.host().name),
    ensures
        grown(c, c.add_ref(r), stands),
        kept(c, c.add_ref(r)),
{
    assert(c.add_ref(r).scopes.drop_last() =~= c.scopes.drop_last());
    if !c.is_local(r.host().name) {
        assert(direct(c, r, stands));
    }
}

/// What a scope that is closed leaves in the scope around it is growth of
/// that scope, if what it has recorded itself was growth from nothing.
pub proof fn lemma_scope_grown(
    c: CtxView,
    c1: CtxView,
    has_capture: bool,
    stands: spec_fn(Seq<char>) -> bool,
)
    requires
        ready(c),
        ready(c1),
        kept(c.enter_scope(has_capture), c1),
        grown(c.enter_scope(has_capture), c1, stands),
    ensures
        grown(c, c1.leave_scope(has_capture).0, stands),
{
    let opened = c.enter_scope(has_capture);
    lemma_kept_scope(c, c1, has_capture);
    let left = c1.leave_scope(has_capture).0;
    let outer = if has_capture {
        c1.leave_capture_level()
    } else {
        c1
    };
    let inner_refs = c1.scopes.last().refs;
    let scope = c1.scopes.last().finalized();
    let rest = c1.scopes.drop_last();
    assert(rest == c.scopes);
    let escaped = escaping(scope.refs, outer);
    let handed = handed_on(escaped, has_capture);
    let old_refs = c.scopes.last().refs;
    let new_refs = left.scopes.last().refs;
    assert(new_refs == old_refs + handed);
    manifest_keeps_names(inner_refs);
    assert forall|k: int| old_refs.len() <= k < new_refs.len() implies sound(
        c,
        #[trigger] new_refs[k],
        stands,
    ) by {
        let y = escaped[k - old_refs.len()];
        let x = handed[k - old_refs.len()];
        assert(new_refs[k] == x);
        handed_on_is_not_local(scope.refs, outer, k - old_refs.len());
        assert(scope.refs.contains(y));
        let q = choose|q: int| 0 <= q < scope.refs.len() && scope.refs[q] == y;
        assert(holds_cell(inner_refs, finalize(inner_refs)[q]));
        let m = choose|m: int| 0 <= m < inner_refs.len() && same_cell(#[trigger] inner_refs[m], y);
        assert(opened.scopes.last().refs.len() == 0);
        assert(sound(opened, inner_refs[m], stands));
        assert(y.host() == inner_refs[m].host());
        if direct(opened, inner_refs[m], stands) {
            if has_capture && y.builtin is Some {
                // the scope has taken the facet for itself
                assert(taken_over(x, y.host().name, stands));
            } else {
                assert(x.host() == y.host());
                // what is local in the state before the scope is local where
                // the scope is closed
                if c.is_local(y.host().name) {
                    if has_capture {
                        assert(outer.stacks == c.stacks);
                        assert(outer.heads == c.heads);
                        let (i, j) = choose|i: int, j: int|
                            c.head() <= i < c.stacks.len() && 0 <= j < c.stacks[i].len()
                                && #[trigger] c.stacks[i][j] == y.host().name;
                        assert(outer.stacks[i][j] == y.host().name);
                    } else {
                        assert(opened.is_local(y.host().name)) by {
                            let (i, j) = choose|i: int, j: int|
                                c.head() <= i < c.stacks.len() && 0 <= j < c.stacks[i].len()
                                    && #[trigger] c.stacks[i][j] == y.host().name;
                            assert(opened.stacks[i][j] == y.host().name);
                        }
                        lemma_kept_local(opened, c1, y.host().name);
                    }
                }
                assert(direct(c, x, stands));
            }
        } else {
            let host = choose|host: Seq<char>| #[trigger] taken_over(inner_refs[m], host, stands);
            assert(taken_over(x, host, stands));
        }
    }
}

/// What the analysis of a tree records is growth by what the tree mentions.
pub proof fn lemma_fold_expr_grown(c: CtxView, e: ExprView, t: BuiltinTableView)
    requires
        ready(c),
        fold_expr(c, e, t) is Ok,
    ensures
        grown(c, fold_expr(c, e, t)->Ok_0.0, mentioned_in(e)),
    decreases e, 2int,
{
    let stands = mentioned_in(e);
    match e {
        ExprView::Syntax { parts } => {
            lemma_fold_list_grown(c, parts, t);
            lemma_grown_within(c, fold_list(c, parts, t)->Ok_0.0, mentioned_in_any(parts), stands);
        },
        ExprView::Block { parts } => {
            let c0 = c.push_frame();
            lemma_fold_list_grown(c0, parts, t);
            lemma_fold_list_kept(c0, parts, t);
            let c1 = fold_list(c0, parts, t)->Ok_0.0;
            lemma_grown_within(c0, c1, mentioned_in_any(parts), stands);
            lemma_frame_grown(c, c1, stands);
        },
        ExprView::Closure { capture, inputs, body, .. } => {
            if capture {
                let opened = c.enter_scope(true);
                lemma_fold_closure_grown(opened, e, t);
                lemma_fold_closure_kept(opened, e, t);
                lemma_fold_closure_shape(opened, e, t);
                lemma_scope_grown(c, fold_closure(opened, e, t)->Ok_0.0, true, stands);
            } else {
                lemma_fold_closure_grown(c, e, t);
            }
        },
        ExprView::Local { pat, init } => {
            match init {
                Some(i) => {
                    lemma_fold_expr_grown(c, *i, t);
                    lemma_fold_expr_kept(c, *i, t);
                    lemma_fold_expr_shape(c, *i, t);
                    let c1 = fold_expr(c, *i, t)->Ok_0.0;
                    lemma_fold_expr_grown(c1, *pat, t);
                    let c2 = fold_expr(c1, *pat, t)->Ok_0.0;
                    lemma_grown_trans(c, c1, c2, mentioned_in(*i), mentioned_in(*pat), stands);
                },
                None => {
                    lemma_fold_expr_grown(c, *pat, t);
                    lemma_grown_within(c, fold_expr(c, *pat, t)->Ok_0.0, mentioned_in(*pat), stands);
                },
            }
        },
        ExprView::PatIdent { ident, subpat } => {
            let d = c.declare(ident.name);
            lemma_declare_grown(c, ident.name);
            match subpat {
                Some(s) => {
                    lemma_fold_expr_grown(d, *s, t);
                    let c1 = fold_expr(d, *s, t)->Ok_0.0;
                    lemma_grown_trans(c, d, c1, stands, mentioned_in(*s), stands);
                },
                None => {},
            }
        },
        ExprView::ItemConst { ident, parts } => {
            let d = c.declare(ident.name);
            lemma_declare_grown(c, ident.name);
            lemma_fold_list_grown(d, parts, t);
            let c1 = fold_list(d, parts, t)->Ok_0.0;
            lemma_grown_trans(c, d, c1, stands, mentioned_in_any(parts), stands);
        },
        ExprView::Field { .. } => {
            lemma_fold_field_grown(c, e, t);
        },
        ExprView::MethodCall { .. } => {
            lemma_fold_method_call_grown(c, e, t);
        },
        ExprView::Macro { .. } => {
            lemma_fold_macro_grown(c, e, t);
        },
        _ => {},
    }
}

/// A declaration records nothing.
pub proof fn lemma_declare_grown(c: CtxView, name: Seq<char>)
    requires
        ready(c),
    ensures
        kept(c, c.declare(name)),
        ready(c.declare(name)),
        forall|stands: spec_fn(Seq<char>) -> bool| #[trigger] grown(c, c.declare(name), stands),
{
    assert(c.declare(name).stacks.drop_last() =~= c.stacks.drop_last());
}

/// What was recorded in a frame is growth of the state around the frame.
pub proof fn lemma_frame_grown(c: CtxView, c1: CtxView, stands: spec_fn(Seq<char>) -> bool)
    requires
        ready(c),
        kept(c.push_frame(), c1),
        grown(c.push_frame(), c1, stands),
    ensures
        grown(c, c1.pop_frame(), stands),
{
    let c0 = c.push_frame();
    let old_refs = c.scopes.last().refs;
    let new_refs = c1.pop_frame().scopes.last().refs;
    assert forall|k: int| old_refs.len() <= k < new_refs.len() implies sound(
        c,
        #[trigger] new_refs[k],
        stands,
    ) by {
        assert(sound(c0, c1.scopes.last().refs[k], stands));
        let name = new_refs[k].host().name;
        if c.is_local(name) {
            let (i, j) = choose|i: int, j: int|
                c.head() <= i < c.stacks.len() && 0 <= j < c.stacks[i].len()
                    && #[trigger] c.stacks[i][j] == name;
            assert(c0.stacks[i][j] == name);
        }
        lemma_sound_from(c, c0, new_refs[k], stands);
    }
}

/// What the analysis of a list records is growth by what the list
/// mentions.
pub proof fn lemma_fold_list_grown(c: CtxView, parts: Seq<ExprView>, t: BuiltinTableView)
    requires
        ready(c),
        fold_list(c, parts, t) is Ok,
    ensures
        grown(c, fold_list(c, parts, t)->Ok_0.0, mentioned_in_any(parts)),
    decreases parts, 0int,
{
    if parts.len() > 0 {
        lemma_fold_list_grown(c, parts.drop_last(), t);
        lemma_fold_list_kept(c, parts.drop_last(), t);
        lemma_fold_list_shape(c, parts.drop_last(), t);
        let c1 = fold_list(c, parts.drop_last(), t)->Ok_0.0;
        lemma_fold_expr_grown(c1, parts.last(), t);
        let c2 = fold_expr(c1, parts.last(), t)->Ok_0.0;
        lemma_grown_trans(
            c,
            c1,
            c2,
            mentioned_in_any(parts.drop_last()),
            mentioned_in(parts.last()),
            mentioned_in_any(parts),
        );
    }
}

/// What the analysis of a closure records is growth by what the closure
/// mentions.
pub proof fn lemma_fold_closure_grown(c: CtxView, e: ExprView, t: BuiltinTableView)
    requires
        ready(c),
        e is Closure,
        fold_closure(c, e, t) is Ok,
    ensures
        grown(c, fold_closure(c, e, t)->Ok_0.0, mentioned_in(e)),
    decreases e, 0int,
{
    match e {
        ExprView::Closure { capture, typed, inputs, body } => {
            let c0 = c.push_frame();
            lemma_fold_list_grown(c0, inputs, t);
            lemma_fold_list_kept(c0, inputs, t);
            lemma_fold_list_shape(c0, inputs, t);
            let c1 = fold_list(c0, inputs, t)->Ok_0.0;
            lemma_fold_expr_grown(c1, *body, t);
            lemma_fold_expr_kept(c1, *body, t);
            let c2 = fold_expr(c1, *body, t)->Ok_0.0;
            lemma_grown_trans(
                c0,
                c1,
                c2,
                mentioned_in_any(inputs),
                mentioned_in(*body),
                mentioned_in(e),
            );
            lemma_kept_trans(c0, c1, c2);
            lemma_frame_grown(c, c2, mentioned_in(e));
        },
        _ => {},
    }
}

/// Redirecting a reference to a facet is growth by the cell of the
/// reference.
pub proof fn lemma_replace_reference_grown(
    c: CtxView,
    target: ExprView,
    facet: Seq<char>,
    write: bool,
)
    requires
        ready(c),
        replace_reference(c, target, facet, write) is Some,
        replace_reference(c, target, facet, write)->0 is Ok,
    ensures
        grown(c, replace_reference(c, target, facet, write)->0->Ok_0.0, mentioned_in(target)),
{
    let host = reference_of(target)->0->Ok_0;
    assert(mentions(target, host.name));
    assert(facet_name(host.name, facet) == facet_ref(host, facet, write).name.name);
    lemma_add_ref_grown(
        c,
        facet_ref(host, facet, write),
        mentioned_in(target),
    );
}

/// Redirecting an access to a facet is growth by what its object mentions.
pub proof fn lemma_replace_builtin_grown(
    c: CtxView,
    caller: ExprView,
    facet: Seq<char>,
    t: BuiltinTableView,
)
    requires
        ready(c),
        replace_builtin(c, caller, facet, t) is Some,
        replace_builtin(c, caller, facet, t)->0 is Ok,
    ensures
        grown(c, replace_builtin(c, caller, facet, t)->0->Ok_0.0, mentioned_in(caller)),
    decreases caller, 1int,
{
    match caller {
        ExprView::MethodCall { receiver, method, args } => {
            if is_write_method(method.name) {
                lemma_replace_reference_grown(c, *receiver, facet, true);
                lemma_replace_reference_kept(c, *receiver, facet, true);
                let c1 = replace_reference(c, *receiver, facet, true)->0->Ok_0.0;
                lemma_fold_list_grown(c1, args, t);
                let c2 = fold_list(c1, args, t)->Ok_0.0;
                lemma_grown_trans(
                    c,
                    c1,
                    c2,
                    mentioned_in(*receiver),
                    mentioned_in_any(args),
                    mentioned_in(caller),
                );
            } else {
                lemma_replace_reference_grown(c, caller, facet, false);
            }
        },
        _ => {
            lemma_replace_reference_grown(c, caller, facet, false);
        },
    }
}

/// What the analysis of a field access records is growth by what the
/// access mentions.
pub proof fn lemma_fold_field_grown(c: CtxView, e: ExprView, t: BuiltinTableView)
    requires
        ready(c),
        e is Field,
        fold_field(c, e, t) is Ok,
    ensures
        grown(c, fold_field(c, e, t)->Ok_0.0, mentioned_in(e)),
    decreases e, 0int,
{
    match e {
        ExprView::Field { base, member } => {
            let replaced = match member {
                MemberView::Named(m) => match lookup(t.fields, m.name) {
                    Some(facet) => replace_builtin(c, *base, snake_case_of(facet), t),
                    None => None,
                },
                MemberView::Unnamed(_) => None,
            };
            if replaced is Some {
                lemma_replace_builtin_grown(
                    c,
                    *base,
                    snake_case_of(lookup(t.fields, member->Named_0.name)->0),
                    t,
                );
            } else {
                lemma_fold_expr_grown(c, *base, t);
            }
            lemma_grown_within(c, fold_field(c, e, t)->Ok_0.0, mentioned_in(*base), mentioned_in(e));
        },
        _ => {},
    }
}

/// What the analysis of a method call records is growth by what the call
/// mentions.
pub proof fn lemma_fold_method_call_grown(c: CtxView, e: ExprView, t: BuiltinTableView)
    requires
        ready(c),
        e is MethodCall,
        fold_method_call(c, e, t) is Ok,
    ensures
        grown(c, fold_method_call(c, e, t)->Ok_0.0, mentioned_in(e)),
    decreases e, 0int,
{
    match e {
        ExprView::MethodCall { receiver, method, args } => {
            let replaced = match lookup(t.methods, method.name) {
                Some(facet) => replace_builtin(c, *receiver, snake_case_of(facet), t),
                None => None,
            };
            let written = if is_write_method(method.name) {
                reference_of(*receiver)
            } else {
                None
            };
            let head = match replaced {
                Some(found) => found,
                None => match written {
                    Some(Ok(name)) => Ok(
                        (
                            c.add_ref(plain_ref(name, true)),
                            expanded(path_span(*receiver), seq![ident_token(name)]),
                        ),
                    ),
                    Some(Err(x)) => Err(x),
                    None => fold_expr(c, *receiver, t),
                },
            };
            let c1 = head->Ok_0.0;
            if replaced is Some {
                let facet = snake_case_of(lookup(t.methods, method.name)->0);
                lemma_replace_builtin_grown(c, *receiver, facet, t);
                lemma_replace_builtin_kept(c, *receiver, facet, t);
                lemma_replace_builtin_shape(c, *receiver, facet, t);
            } else if written is None {
                lemma_fold_expr_grown(c, *receiver, t);
                lemma_fold_expr_kept(c, *receiver, t);
                lemma_fold_expr_shape(c, *receiver, t);
            } else {
                let name = written->0->Ok_0;
                assert(mentions(*receiver, name.name));
                lemma_add_ref_grown(c, plain_ref(name, true), mentioned_in(*receiver));
            }
            lemma_fold_list_grown(c1, args, t);
            let c2 = fold_list(c1, args, t)->Ok_0.0;
            lemma_grown_trans(
                c,
                c1,
                c2,
                mentioned_in(*receiver),
                mentioned_in_any(args),
                mentioned_in(e),
            );
        },
        _ => {},
    }
}

/// What the analysis of a macro call records is growth by what the call
/// mentions.
pub proof fn lemma_fold_macro_grown(c: CtxView, e: ExprView, t: BuiltinTableView)
    requires
        ready(c),
        e is Macro,
        fold_macro(c, e, t) is Ok,
    ensures
        grown(c, fold_macro(c, e, t)->Ok_0.0, mentioned_in(e)),
    decreases e, 1int,
{
    let stands = mentioned_in(e);
    lemma_mark_kept(c);
    assert(grown(c, c.mark_ctx(), stands));
    match e {
        ExprView::Macro { path, tokens, code } => {
            match macro_kind(path.name) {
                MacroKind::Reference => {
                    let name = parse_reference(tokens)->0;
                    assert(mentions(e, name.name));
                    lemma_add_ref_grown(c, plain_ref(name, false), stands);
                },
                MacroKind::Watch => {
                    lemma_fold_scoped_grown(c, e, true, t);
                },
                MacroKind::Pipe => {
                    lemma_fold_scoped_grown(c.mark_ctx(), e, true, t);
                    let c1 = fold_scoped(c.mark_ctx(), e, true, t)->Ok_0.0;
                    lemma_grown_trans(c, c.mark_ctx(), c1, stands, stands, stands);
                },
                MacroKind::FnWidget => {
                    lemma_fold_scoped_grown(c, e, false, t);
                },
                MacroKind::Rdl => {
                    lemma_fold_in_place_grown(c.mark_ctx(), e, t);
                    let c1 = fold_in_place(c.mark_ctx(), e, t)->Ok_0.0;
                    lemma_grown_trans(c, c.mark_ctx(), c1, stands, stands, stands);
                },
                MacroKind::SplitWriter => {
                    lemma_fold_in_place_grown(c, e, t);
                },
                MacroKind::MapWriter => {
                    lemma_fold_in_place_grown(c, e, t);
                },
                _ => {},
            }
        },
        _ => {},
    }
}

/// What the analysis of a macro call with a scope of its own leaves in the
/// scope around it is growth by what the call mentions.
pub proof fn lemma_fold_scoped_grown(c: CtxView, e: ExprView, derived: bool, t: BuiltinTableView)
    requires
        ready(c),
        e is Macro,
        fold_scoped(c, e, derived, t) is Ok,
    ensures
        grown(c, fold_scoped(c, e, derived, t)->Ok_0.0, mentioned_in(e)),
    decreases e, 0int,
{
    match e {
        ExprView::Macro { path, tokens, code } => {
            let opened = c.enter_scope(derived);
            lemma_fold_list_grown(opened, code, t);
            lemma_fold_list_kept(opened, code, t);
            lemma_fold_list_shape(opened, code, t);
            let c1 = fold_list(opened, code, t)->Ok_0.0;
            lemma_grown_within(opened, c1, mentioned_in_any(code), mentioned_in(e));
            lemma_scope_grown(c, c1, derived, mentioned_in(e));
        },
        _ => {},
    }
}

/// What the analysis of a macro call without a scope of its own records is
/// growth by what the call mentions.
pub proof fn lemma_fold_in_place_grown(c: CtxView, e: ExprView, t: BuiltinTableView)
    requires
        ready(c),
        e is Macro,
        fold_in_place(c, e, t) is Ok,
    ensures
        grown(c, fold_in_place(c, e, t)->Ok_0.0, mentioned_in(e)),
    decreases e, 0int,
{
    match e {
        ExprView::Macro { path, tokens, code } => {
            lemma_fold_list_grown(c, code, t);
            lemma_grown_within(
                c,
                fold_list(c, code, t)->Ok_0.0,
                mentioned_in_any(code),
                mentioned_in(e),
            );
        },
        _ => {},
    }
}

/// While a variable is local, no code records a reference to it. Where no
/// entry of its name stands in the scope before the code, an entry of its
/// name behind the code is no reference to it: it is the variable of a facet
/// of a cell that the code mentions, taken over from a closure in the code.
/// And the variable is local still.
pub proof fn local_stays_unrecorded(c: CtxView, e: ExprView, name: Seq<char>, t: BuiltinTableView)
    requires
        ready(c),
        c.is_local(name),
        forall|k: int|
            0 <= k < c.scopes.last().refs.len() ==> (#[trigger] c.scopes.last().refs[k]).host().name
                != name,
        fold_expr(c, e, t) is Ok,
    ensures
        fold_expr(c, e, t)->Ok_0.0.is_local(name),
        forall|k: int|
            0 <= k < fold_expr(c, e, t)->Ok_0.0.scopes.last().refs.len() && (
            #[trigger] fold_expr(c, e, t)->Ok_0.0.scopes.last().refs[k]).host().name == name
                ==> handed_in(fold_expr(c, e, t)->Ok_0.0.scopes.last().refs[k], mentioned_in(e)),
{
    let c1 = fold_expr(c, e, t)->Ok_0.0;
    lemma_fold_expr_grown(c, e, t);
    lemma_fold_expr_kept(c, e, t);
    lemma_kept_local(c, c1, name);
    assert forall|k: int|
        0 <= k < c1.scopes.last().refs.len() && (#[trigger] c1.scopes.last().refs[k]).host().name
            == name implies handed_in(c1.scopes.last().refs[k], mentioned_in(e)) by {
        if k < c.scopes.last().refs.len() {
            assert(c1.scopes.last().refs[k] == c.scopes.last().refs[k]);
        } else {
            assert(sound(c, c1.scopes.last().refs[k], mentioned_in(e)));
        }
    }
}

/// What stands in the manifest of a piece of code is referred to in the
/// code: every entry goes to a cell that a reference in the code names, or
/// is the variable of a facet of such a cell, taken over from a closure in
/// the code.
pub proof fn manifest_holds_what_is_referenced(e: ExprView, t: BuiltinTableView, k: int)
    requires
        analyzed(e, t) is Ok,
        0 <= k < analyzed(e, t)->Ok_0.1.refs.len(),
    ensures
        mentions(e, analyzed(e, t)->Ok_0.1.refs[k].host().name) || handed_in(
            analyzed(e, t)->Ok_0.1.refs[k],
            mentioned_in(e),
        ),
{
    let top = CtxView::top_level();
    lemma_fold_expr_grown(top, e, t);
    lemma_fold_expr_shape(top, e, t);
    let c1 = fold_expr(top, e, t)->Ok_0.0;
    let refs = c1.scopes.last().refs;
    assert(c1.scopes.drop_last().len() == 0);
    let manifest = analyzed(e, t)->Ok_0.1;
    assert(manifest.refs == finalize(refs));
    manifest_keeps_names(refs);
    assert(holds_cell(refs, finalize(refs)[k]));
    let m = choose|m: int| 0 <= m < refs.len() && same_cell(#[trigger] refs[m], manifest.refs[k]);
    assert(sound(top, refs[m], mentioned_in(e)));
    assert(refs[m].host() == manifest.refs[k].host());
    if direct(top, refs[m], mentioned_in(e)) {
        assert(mentioned_in(e)(refs[m].host().name));
    } else {
        let host = choose|host: Seq<char>| #[trigger] taken_over(refs[m], host, mentioned_in(e));
        assert(taken_over(manifest.refs[k], host, mentioned_in(e)));
    }
}

} // verus!
