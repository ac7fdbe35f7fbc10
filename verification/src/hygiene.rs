//! What the analysis of a piece of code leaves untouched: the scopes and
//! frames around the innermost ones, and what the innermost frame held.

use vstd::prelude::*;
use crate::analysis::{
    expanded, fold_closure, fold_expr, fold_field, fold_in_place, fold_list, fold_macro,
    fold_method_call, fold_scoped, is_write_method, lemma_fold_expr_shape,
    lemma_fold_list_shape, lemma_replace_builtin_shape, macro_kind, path_span, plain_ref, ready,
    reference_of, replace_builtin, replace_reference, same_shape, MacroKind,
};
use crate::builtin::{lookup, snake_case_of, BuiltinTableView};
use crate::codegen::ident_token;
use crate::ctx::CtxView;
use crate::expr::{ExprView, MemberView};

verus! {

/// Whether `b` differs from `a` in its innermost scope and frame only, the
/// frame holding what it held and more.
pub open spec fn kept(a: CtxView, b: CtxView) -> bool {
    &&& same_shape(a, b)
    &&& b.scopes.drop_last() == a.scopes.drop_last()
    &&& b.stacks.drop_last() == a.stacks.drop_last()
    &&& a.stacks.last().is_prefix_of(b.stacks.last())
}

/// Keeping is transitive.
pub proof fn lemma_kept_trans(a: CtxView, b: CtxView, c: CtxView)
    requires
        kept(a, b),
        kept(b, c),
        a.stacks.len() > 0,
    ensures
        kept(a, c),
{
}

/// What is local stays local in a state that keeps the frames.
pub proof fn lemma_kept_local(a: CtxView, b: CtxView, name: Seq<char>)
    requires
        kept(a, b),
        a.is_local(name),
    ensures
        b.is_local(name),
{
    let (i, j) = choose|i: int, j: int|
        a.head() <= i < a.stacks.len() && 0 <= j < a.stacks[i].len() && #[trigger] a.stacks[i][j]
            == name;
    if i < a.stacks.len() - 1 {
        assert(a.stacks.drop_last()[i] == a.stacks[i]);
        assert(b.stacks.drop_last()[i] == b.stacks[i]);
    }
    assert(b.stacks[i][j] == name);
}

/// A scope or frame that was opened in a state and the state after its
/// code give, when it is closed, a state that keeps the first one.
pub proof fn lemma_kept_frame(c: CtxView, c1: CtxView)
    requires
        ready(c),
        kept(c.push_frame(), c1),
    ensures
        kept(c, c1.pop_frame()),
        c1.pop_frame().stacks == c.stacks,
        c1.pop_frame().scopes == c1.scopes,
{
    assert(c.push_frame().stacks.drop_last() =~= c.stacks);
    assert(c1.pop_frame().scopes.drop_last() =~= c.scopes.drop_last()) by {
        assert(c1.scopes.drop_last() == c.push_frame().scopes.drop_last());
    }
}

/// The state after a scope is closed keeps the state before it was opened.
pub proof fn lemma_kept_scope(c: CtxView, c1: CtxView, has_capture: bool)
    requires
        ready(c),
        kept(c.enter_scope(has_capture), c1),
    ensures
        kept(c, c1.leave_scope(has_capture).0),
        c1.leave_scope(has_capture).0.stacks == if has_capture {
            c.stacks
        } else {
            c1.stacks
        },
        c1.leave_scope(has_capture).0.heads == c.heads,
        c1.scopes.drop_last() == c.scopes,
{
    let opened = c.enter_scope(has_capture);
    let left = c1.leave_scope(has_capture).0;
    assert(opened.scopes.drop_last() =~= c.scopes);
    let rest = c1.scopes.drop_last();
    assert(rest == c.scopes);
    assert(left.scopes.drop_last() =~= c.scopes.drop_last());
    if has_capture {
        assert(opened.stacks.drop_last() =~= c.stacks);
        assert(opened.heads.drop_last() =~= c.heads);
        assert(left.stacks =~= c.stacks);
        assert(left.heads =~= c.heads);
    }
}

/// The analysis of a tree changes the innermost scope and frame only.
pub proof fn lemma_fold_expr_kept(c: CtxView, e: ExprView, t: BuiltinTableView)
    requires
        ready(c),
        fold_expr(c, e, t) is Ok,
    ensures
        kept(c, fold_expr(c, e, t)->Ok_0.0),
    decreases e, 2int,
{
    match e {
        ExprView::Syntax { parts } => {
            lemma_fold_list_kept(c, parts, t);
        },
        ExprView::Block { parts } => {
            lemma_fold_list_kept(c.push_frame(), parts, t);
            lemma_kept_frame(c, fold_list(c.push_frame(), parts, t)->Ok_0.0);
        },
        ExprView::Closure { capture, .. } => {
            if capture {
                lemma_fold_closure_kept(c.enter_scope(true), e, t);
                lemma_kept_scope(c, fold_closure(c.enter_scope(true), e, t)->Ok_0.0, true);
            } else {
                lemma_fold_closure_kept(c, e, t);
            }
        },
        ExprView::Local { pat, init } => {
            match init {
                Some(i) => {
                    lemma_fold_expr_kept(c, *i, t);
                    lemma_fold_expr_shape(c, *i, t);
                    let c1 = fold_expr(c, *i, t)->Ok_0.0;
                    lemma_fold_expr_kept(c1, *pat, t);
                    lemma_kept_trans(c, c1, fold_expr(c1, *pat, t)->Ok_0.0);
                },
                None => {
                    lemma_fold_expr_kept(c, *pat, t);
                },
            }
        },
        ExprView::PatIdent { ident, subpat } => {
            let d = c.declare(ident.name);
            assert(kept(c, d)) by {
                assert(d.stacks.drop_last() =~= c.stacks.drop_last());
            }
            match subpat {
                Some(s) => {
                    lemma_fold_expr_kept(d, *s, t);
                    lemma_kept_trans(c, d, fold_expr(d, *s, t)->Ok_0.0);
                },
                None => {},
            }
        },
        ExprView::ItemConst { ident, parts } => {
            let d = c.declare(ident.name);
            assert(kept(c, d)) by {
                assert(d.stacks.drop_last() =~= c.stacks.drop_last());
            }
            lemma_fold_list_kept(d, parts, t);
            lemma_kept_trans(c, d, fold_list(d, parts, t)->Ok_0.0);
        },
        ExprView::Field { .. } => {
            lemma_fold_field_kept(c, e, t);
        },
        ExprView::MethodCall { .. } => {
            lemma_fold_method_call_kept(c, e, t);
        },
        ExprView::Macro { .. } => {
            lemma_fold_macro_kept(c, e, t);
        },
        _ => {},
    }
}

/// The analysis of a list changes the innermost scope and frame only.
pub proof fn lemma_fold_list_kept(c: CtxView, parts: Seq<ExprView>, t: BuiltinTableView)
    requires
        ready(c),
        fold_list(c, parts, t) is Ok,
    ensures
        kept(c, fold_list(c, parts, t)->Ok_0.0),
    decreases parts, 0int,
{
    if parts.len() > 0 {
        lemma_fold_list_kept(c, parts.drop_last(), t);
        lemma_fold_list_shape(c, parts.drop_last(), t);
        let c1 = fold_list(c, parts.drop_last(), t)->Ok_0.0;
        lemma_fold_expr_kept(c1, parts.last(), t);
        lemma_kept_trans(c, c1, fold_expr(c1, parts.last(), t)->Ok_0.0);
    }
}

/// The analysis of a closure changes the innermost scope only: what it
/// declares ends with it.
pub proof fn lemma_fold_closure_kept(c: CtxView, e: ExprView, t: BuiltinTableView)
    requires
        ready(c),
        e is Closure,
        fold_closure(c, e, t) is Ok,
    ensures
        kept(c, fold_closure(c, e, t)->Ok_0.0),
        fold_closure(c, e, t)->Ok_0.0.stacks == c.stacks,
    decreases e, 0int,
{
    match e {
        ExprView::Closure { capture, typed, inputs, body } => {
            let c0 = c.push_frame();
            lemma_fold_list_kept(c0, inputs, t);
            lemma_fold_list_shape(c0, inputs, t);
            let c1 = fold_list(c0, inputs, t)->Ok_0.0;
            lemma_fold_expr_kept(c1, *body, t);
            let c2 = fold_expr(c1, *body, t)->Ok_0.0;
            lemma_kept_trans(c0, c1, c2);
            lemma_kept_frame(c, c2);
        },
        _ => {},
    }
}

/// Recording a reference changes the innermost scope only.
pub proof fn lemma_replace_reference_kept(
    c: CtxView,
    target: ExprView,
    facet: Seq<char>,
    write: bool,
)
    requires
        ready(c),
        replace_reference(c, target, facet, write) is Some,
        replace_reference(c, target, facet, write)->0 is Ok,
    ensures
        kept(c, replace_reference(c, target, facet, write)->0->Ok_0.0),
{
    let c1 = replace_reference(c, target, facet, write)->0->Ok_0.0;
    assert(c1.scopes.drop_last() =~= c.scopes.drop_last());
}

/// Redirecting an access to a facet changes the innermost scope and frame
/// only.
pub proof fn lemma_replace_builtin_kept(
    c: CtxView,
    caller: ExprView,
    facet: Seq<char>,
    t: BuiltinTableView,
)
    requires
        ready(c),
        replace_builtin(c, caller, facet, t) is Some,
        replace_builtin(c, caller, facet, t)->0 is Ok,
    ensures
        kept(c, replace_builtin(c, caller, facet, t)->0->Ok_0.0),
    decreases caller, 1int,
{
    match caller {
        ExprView::MethodCall { receiver, method, args } => {
            if is_write_method(method.name) {
                lemma_replace_reference_kept(c, *receiver, facet, true);
                let c1 = replace_reference(c, *receiver, facet, true)->0->Ok_0.0;
                lemma_fold_list_kept(c1, args, t);
                lemma_kept_trans(c, c1, fold_list(c1, args, t)->Ok_0.0);
            } else {
                lemma_replace_reference_kept(c, caller, facet, false);
            }
        },
        _ => {
            lemma_replace_reference_kept(c, caller, facet, false);
        },
    }
}

/// The analysis of a field access changes the innermost scope and frame
/// only.
pub proof fn lemma_fold_field_kept(c: CtxView, e: ExprView, t: BuiltinTableView)
    requires
        ready(c),
        e is Field,
        fold_field(c, e, t) is Ok,
    ensures
        kept(c, fold_field(c, e, t)->Ok_0.0),
    decreases e, 0int,
{
    match e {
        ExprView::Field { base, member } => {
            let replaced = match member {
                MemberView::Named(m) => match lookup(t.fields, m.name) {
                    Some(facet) => replace_builtin(c, *base, snake_case_of(facet), t),
                    None => None,
                },
                MemberView::Unnamed(_) => None,
            };
            if replaced is Some {
                lemma_replace_builtin_kept(
                    c,
                    *base,
                    snake_case_of(lookup(t.fields, member->Named_0.name)->0),
                    t,
                );
            } else {
                lemma_fold_expr_kept(c, *base, t);
            }
        },
        _ => {},
    }
}

/// The analysis of a method call changes the innermost scope and frame
/// only.
pub proof fn lemma_fold_method_call_kept(c: CtxView, e: ExprView, t: BuiltinTableView)
    requires
        ready(c),
        e is MethodCall,
        fold_method_call(c, e, t) is Ok,
    ensures
        kept(c, fold_method_call(c, e, t)->Ok_0.0),
    decreases e, 0int,
{
    match e {
        ExprView::MethodCall { receiver, method, args } => {
            let replaced = match lookup(t.methods, method.name) {
                Some(facet) => replace_builtin(c, *receiver, snake_case_of(facet), t),
                None => None,
            };
            let written = if is_write_method(method.name) {
                reference_of(*receiver)
            } else {
                None
            };
            let head = match replaced {
                Some(found) => found,
                None => match written {
                    Some(Ok(name)) => Ok(
                        (
                            c.add_ref(plain_ref(name, true)),
                            expanded(path_span(*receiver), seq![ident_token(name)]),
                        ),
                    ),
                    Some(Err(x)) => Err(x),
                    None => fold_expr(c, *receiver, t),
                },
            };
            if replaced is Some {
                let facet = snake_case_of(lookup(t.methods, method.name)->0);
                lemma_replace_builtin_kept(c, *receiver, facet, t);
                lemma_replace_builtin_shape(c, *receiver, facet, t);
            } else if written is None {
                lemma_fold_expr_kept(c, *receiver, t);
                lemma_fold_expr_shape(c, *receiver, t);
            } else {
                let c1 = c.add_ref(plain_ref(written->0->Ok_0, true));
                assert(c1.scopes.drop_last() =~= c.scopes.drop_last());
            }
            let c1 = head->Ok_0.0;
            lemma_fold_list_kept(c1, args, t);
            lemma_kept_trans(c, c1, fold_list(c1, args, t)->Ok_0.0);
        },
        _ => {},
    }
}

/// Noting the use of the context changes the innermost scope only.
pub proof fn lemma_mark_kept(c: CtxView)
    requires
        ready(c),
    ensures
        kept(c, c.mark_ctx()),
        ready(c.mark_ctx()),
{
    assert(c.mark_ctx().scopes.drop_last() =~= c.scopes.drop_last());
}

/// The analysis of a macro call changes the innermost scope and frame
/// only.
pub proof fn lemma_fold_macro_kept(c: CtxView, e: ExprView, t: BuiltinTableView)
    requires
        ready(c),
        e is Macro,
        fold_macro(c, e, t) is Ok,
    ensures
        kept(c, fold_macro(c, e, t)->Ok_0.0),
    decreases e, 1int,
{
    lemma_mark_kept(c);
    match e {
        ExprView::Macro { path, tokens, code } => {
            match macro_kind(path.name) {
                MacroKind::Reference => {
                    let c1 = fold_macro(c, e, t)->Ok_0.0;
                    assert(c1.scopes.drop_last() =~= c.scopes.drop_last());
                },
                MacroKind::Watch => {
                    lemma_fold_scoped_kept(c, e, true, t);
                },
                MacroKind::Pipe => {
                    lemma_fold_scoped_kept(c.mark_ctx(), e, true, t);
                    lemma_kept_trans(c, c.mark_ctx(), fold_scoped(c.mark_ctx(), e, true, t)->Ok_0.0);
                },
                MacroKind::FnWidget => {
                    lemma_fold_scoped_kept(c, e, false, t);
                },
                MacroKind::Rdl => {
                    lemma_fold_in_place_kept(c.mark_ctx(), e, t);
                    lemma_kept_trans(c, c.mark_ctx(), fold_in_place(c.mark_ctx(), e, t)->Ok_0.0);
                },
                MacroKind::SplitWriter => {
                    lemma_fold_in_place_kept(c, e, t);
                },
                MacroKind::MapWriter => {
                    lemma_fold_in_place_kept(c, e, t);
                },
                _ => {},
            }
        },
        _ => {},
    }
}

/// The analysis of a macro call with a scope of its own changes the
/// innermost scope and frame only.
pub proof fn lemma_fold_scoped_kept(c: CtxView, e: ExprView, derived: bool, t: BuiltinTableView)
    requires
        ready(c),
        e is Macro,
        fold_scoped(c, e, derived, t) is Ok,
    ensures
        kept(c, fold_scoped(c, e, derived, t)->Ok_0.0),
    decreases e, 0int,
{
    match e {
        ExprView::Macro { path, tokens, code } => {
            let inner = c.enter_scope(derived);
            lemma_fold_list_kept(inner, code, t);
            lemma_kept_scope(c, fold_list(inner, code, t)->Ok_0.0, derived);
        },
        _ => {},
    }
}

/// The analysis of a macro call without a scope of its own changes the
/// innermost scope and frame only.
pub proof fn lemma_fold_in_place_kept(c: CtxView, e: ExprView, t: BuiltinTableView)
    requires
        ready(c),
        e is Macro,
        fold_in_place(c, e, t) is Ok,
    ensures
        kept(c, fold_in_place(c, e, t)->Ok_0.0),
    decreases e, 0int,
{
    match e {
        ExprView::Macro { path, tokens, code } => {
            lemma_fold_list_kept(c, code, t);
        },
        _ => {},
    }
}

} // verus!
