//! The analysis of a tree that was analysed before changes nothing: every
//! site that the analysis rewrites is one that it passes over afterwards.

use vstd::prelude::*;
use crate::analysis::{
    capture_result, expanded, fold_closure, fold_expr, fold_field, fold_in_place, fold_list,
    fold_macro, fold_method_call, fold_scoped, is_write_method, lemma_fold_closure_shape,
    lemma_fold_expr_shape, lemma_fold_list_shape, lemma_replace_builtin_shape, lemma_scope_shape,
    macro_kind, path_span, plain_ref, ready, reference_of, replace_builtin, replace_reference,
    same_shape, MacroKind, KW_EXPANDED,
};
use crate::builtin::{lookup, snake_case_of, BuiltinTableView};
use crate::codegen::ident_token;
use crate::ctx::{escaping, handed_on, CtxView};
use crate::expr::{ExprView, MemberView};
use crate::fn_widget::analyzed;
use crate::refs::{lemma_finalize_empty, DollarRefView};
use crate::scope::ScopeView;
use crate::symbol::{
    KW_CTX, KW_DOLLAR_STR, KW_FN_WIDGET, KW_MAP_WRITER, KW_PIPE, KW_RDL, KW_SPLIT_WRITER, KW_WATCH,
};

verus! {

/// Whether the analysis of `e` meets a request for the build context that
/// counts for the scope around `e`.
pub open spec fn marks(e: ExprView) -> bool
    decreases e,
{
    match e {
        ExprView::Syntax { parts } => marks_any(parts),
        ExprView::Block { parts } => marks_any(parts),
        ExprView::Closure { capture, inputs, body, .. } => !capture && (marks_any(inputs) || marks(
            *body,
        )),
        ExprView::Local { pat, init } => marks(*pat) || match init {
            Some(i) => marks(*i),
            None => false,
        },
        ExprView::PatIdent { subpat, .. } => match subpat {
            Some(s) => marks(*s),
            None => false,
        },
        ExprView::ItemConst { parts, .. } => marks_any(parts),
        ExprView::Field { base, .. } => marks(*base),
        ExprView::MethodCall { receiver, args, .. } => marks(*receiver) || marks_any(args),
        ExprView::Macro { path, .. } => macro_kind(path.name) == MacroKind::Ctx,
        ExprView::Generated { .. } => false,
        ExprView::Captured { .. } => false,
        ExprView::WithCtx { .. } => false,
    }
}

/// Whether the analysis of one of `parts` meets such a request.
pub open spec fn marks_any(parts: Seq<ExprView>) -> bool
    decreases parts,
{
    parts.len() > 0 && (marks_any(parts.drop_last()) || marks(parts.last()))
}

/// Whether nothing is left in `e` for the analysis to rewrite: no reference,
/// no macro that holds code, and no capturing closure that uses the context.
pub open spec fn settled(e: ExprView) -> bool
    decreases e,
{
    match e {
        ExprView::Syntax { parts } => settled_all(parts),
        ExprView::Block { parts } => settled_all(parts),
        ExprView::Closure { capture, inputs, body, .. } => settled_all(inputs) && settled(*body)
            && (capture ==> !marks_any(inputs) && !marks(*body)),
        ExprView::Local { pat, init } => settled(*pat) && match init {
            Some(i) => settled(*i),
            None => true,
        },
        ExprView::PatIdent { subpat, .. } => match subpat {
            Some(s) => settled(*s),
            None => true,
        },
        ExprView::ItemConst { parts, .. } => settled_all(parts),
        ExprView::Field { base, .. } => settled(*base),
        ExprView::MethodCall { receiver, args, .. } => settled(*receiver) && settled_all(args),
        ExprView::Macro { path, .. } => macro_kind(path.name) == MacroKind::Ctx || macro_kind(
            path.name,
        ) == MacroKind::Other,
        ExprView::Generated { .. } => true,
        ExprView::Captured { .. } => true,
        ExprView::WithCtx { .. } => true,
    }
}

/// Whether nothing is left in any of `parts` for the analysis to rewrite.
pub open spec fn settled_all(parts: Seq<ExprView>) -> bool
    decreases parts,
{
    parts.len() == 0 || (settled_all(parts.drop_last()) && settled(parts.last()))
}

/// Whether every scope that uses the context in `a` uses it in `b`.
pub open spec fn ctx_kept(a: CtxView, b: CtxView) -> bool {
    &&& a.scopes.len() == b.scopes.len()
    &&& forall|i: int|
        0 <= i < a.scopes.len() ==> (#[trigger] a.scopes[i]).used_ctx ==> b.scopes[i].used_ctx
}

/// Whether the innermost scope of `c` uses the context.
pub open spec fn uses_ctx(c: CtxView) -> bool {
    c.scopes.len() > 0 && c.scopes.last().used_ctx
}

/// What the analysis has made of a tree: nothing is left to rewrite, and a
/// request for the context that is left in sight has reached the scope.
pub open spec fn passed(c: CtxView, c1: CtxView, out: ExprView) -> bool {
    &&& settled(out)
    &&& marks(out) ==> uses_ctx(c1)
    &&& ctx_kept(c, c1)
}

/// What the analysis has made of a list of trees.
pub open spec fn passed_all(c: CtxView, c1: CtxView, out: Seq<ExprView>) -> bool {
    &&& settled_all(out)
    &&& marks_any(out) ==> uses_ctx(c1)
    &&& ctx_kept(c, c1)
}

/// The mark of rewritten macro calls is the path of no macro that the
/// analysis knows.
pub proof fn lemma_expanded_is_other()
    ensures
        macro_kind(KW_EXPANDED@) == MacroKind::Other,
{
    reveal_strlit("ribir_expanded_ಠ_ಠ");
    reveal_strlit("_dollar_ಠ_ಠ");
    reveal_strlit("watch");
    reveal_strlit("pipe");
    reveal_strlit("rdl");
    reveal_strlit("fn_widget");
    reveal_strlit("split_writer");
    reveal_strlit("map_writer");
    reveal_strlit("ctx");
    assert(KW_EXPANDED@.len() == 18);
    assert(KW_DOLLAR_STR@.len() == 11);
    assert(KW_WATCH@.len() == 5);
    assert(KW_PIPE@.len() == 4);
    assert(KW_RDL@.len() == 3);
    assert(KW_FN_WIDGET@.len() == 9);
    assert(KW_SPLIT_WRITER@.len() == 12);
    assert(KW_MAP_WRITER@.len() == 10);
    assert(KW_CTX@.len() == 3);
}

/// The state after a scope was closed uses the context where the state
/// before the scope was opened did.
pub proof fn lemma_scope_kept(c: CtxView, c1: CtxView, has_capture: bool)
    requires
        ready(c),
        ready(c1),
        same_shape(c.enter_scope(has_capture), c1),
        ctx_kept(c.enter_scope(has_capture), c1),
    ensures
        ctx_kept(c, c1.leave_scope(has_capture).0),
        c1.leave_scope(has_capture).1.used_ctx == c1.scopes.last().used_ctx,
{
    let c2 = c1.leave_scope(has_capture).0;
    let rest = c1.scopes.drop_last();
    assert(rest.len() == c.scopes.len());
    assert forall|i: int| 0 <= i < c.scopes.len() && (#[trigger] c.scopes[i]).used_ctx implies
        c2.scopes[i].used_ctx by {
        assert(c.enter_scope(has_capture).scopes[i] == c.scopes[i]);
        assert(c1.scopes[i].used_ctx);
        assert(rest[i] == c1.scopes[i]);
    }
}

/// Keeping the use of the context is transitive, and what uses the context
/// goes on using it.
pub proof fn lemma_ctx_kept(a: CtxView, b: CtxView, c: CtxView)
    requires
        ctx_kept(a, b),
        ctx_kept(b, c),
    ensures
        ctx_kept(a, c),
        uses_ctx(a) ==> uses_ctx(b),
{
    assert forall|i: int| 0 <= i < a.scopes.len() && (#[trigger] a.scopes[i]).used_ctx implies
        c.scopes[i].used_ctx by {
        assert(b.scopes[i].used_ctx);
    }
}

/// A list with one more tree at its end has passed if the list and the tree
/// have.
pub proof fn lemma_passed_push(
    c: CtxView,
    c1: CtxView,
    c2: CtxView,
    done: Seq<ExprView>,
    last: ExprView,
)
    requires
        passed_all(c, c1, done),
        passed(c1, c2, last),
    ensures
        passed_all(c, c2, done.push(last)),
{
    assert(done.push(last).drop_last() =~= done);
    lemma_ctx_kept(c, c1, c2);
    lemma_ctx_kept(c1, c2, c2);
}

/// What the analysis returns of a tree has passed.
pub proof fn lemma_fold_expr_passed(c: CtxView, e: ExprView, t: BuiltinTableView)
    requires
        ready(c),
        fold_expr(c, e, t) is Ok,
    ensures
        passed(c, fold_expr(c, e, t)->Ok_0.0, fold_expr(c, e, t)->Ok_0.1),
    decreases e, 2int,
{
    match e {
        ExprView::Syntax { parts } => {
            lemma_fold_list_passed(c, parts, t);
        },
        ExprView::Block { parts } => {
            lemma_fold_list_passed(c.push_frame(), parts, t);
            let c1 = fold_list(c.push_frame(), parts, t)->Ok_0.0;
            lemma_ctx_kept(c, c.push_frame(), c1);
            lemma_ctx_kept(c, c1, c1.pop_frame());
        },
        ExprView::Closure { capture, .. } => {
            if capture {
                let inner = c.enter_scope(true);
                lemma_fold_closure_shape(inner, e, t);
                lemma_fold_closure_passed(inner, e, t);
                let c1 = fold_closure(inner, e, t)->Ok_0.0;
                let folded = fold_closure(inner, e, t)->Ok_0.1;
                lemma_scope_shape(c, c1, true);
                lemma_scope_kept(c, c1, true);
                let scope = c1.leave_scope(true).1;
                let out = capture_result(scope, folded);
                if !(scope.used_ctx || scope.refs.len() > 0) {
                    assert(out == folded);
                    assert(!uses_ctx(c1));
                }
            } else {
                lemma_fold_closure_passed(c, e, t);
            }
        },
        ExprView::Local { pat, init } => {
            match init {
                Some(i) => {
                    lemma_fold_expr_passed(c, *i, t);
                    lemma_fold_expr_shape(c, *i, t);
                    let c1 = fold_expr(c, *i, t)->Ok_0.0;
                    lemma_fold_expr_passed(c1, *pat, t);
                    let c2 = fold_expr(c1, *pat, t)->Ok_0.0;
                    lemma_ctx_kept(c, c1, c2);
                    lemma_ctx_kept(c1, c2, c2);
                },
                None => {
                    lemma_fold_expr_passed(c, *pat, t);
                },
            }
        },
        ExprView::PatIdent { ident, subpat } => {
            match subpat {
                Some(s) => {
                    lemma_fold_expr_passed(c.declare(ident.name), *s, t);
                    let c1 = fold_expr(c.declare(ident.name), *s, t)->Ok_0.0;
                    lemma_ctx_kept(c, c.declare(ident.name), c1);
                },
                None => {},
            }
        },
        ExprView::ItemConst { ident, parts } => {
            lemma_fold_list_passed(c.declare(ident.name), parts, t);
            let c1 = fold_list(c.declare(ident.name), parts, t)->Ok_0.0;
            lemma_ctx_kept(c, c.declare(ident.name), c1);
        },
        ExprView::Field { .. } => {
            lemma_fold_field_passed(c, e, t);
        },
        ExprView::MethodCall { .. } => {
            lemma_fold_method_call_passed(c, e, t);
        },
        ExprView::Macro { .. } => {
            lemma_fold_macro_passed(c, e, t);
        },
        _ => {},
    }
}

/// What the analysis returns of a list has passed.
pub proof fn lemma_fold_list_passed(c: CtxView, parts: Seq<ExprView>, t: BuiltinTableView)
    requires
        ready(c),
        fold_list(c, parts, t) is Ok,
    ensures
        passed_all(c, fold_list(c, parts, t)->Ok_0.0, fold_list(c, parts, t)->Ok_0.1),
    decreases parts, 0int,
{
    if parts.len() > 0 {
        lemma_fold_list_passed(c, parts.drop_last(), t);
        lemma_fold_list_shape(c, parts.drop_last(), t);
        let c1 = fold_list(c, parts.drop_last(), t)->Ok_0.0;
        let done = fold_list(c, parts.drop_last(), t)->Ok_0.1;
        lemma_fold_expr_passed(c1, parts.last(), t);
        let c2 = fold_expr(c1, parts.last(), t)->Ok_0.0;
        let last = fold_expr(c1, parts.last(), t)->Ok_0.1;
        lemma_passed_push(c, c1, c2, done, last);
    }
}

/// What the analysis returns of a closure has passed, but that the closure
/// may still use the context.
pub proof fn lemma_fold_closure_passed(c: CtxView, e: ExprView, t: BuiltinTableView)
    requires
        ready(c),
        e is Closure,
        fold_closure(c, e, t) is Ok,
    ensures
        ({
            let c1 = fold_closure(c, e, t)->Ok_0.0;
            let out = fold_closure(c, e, t)->Ok_0.1;
            &&& out is Closure
            &&& out->capture == e->capture
            &&& settled_all(out->inputs)
            &&& settled(*out->Closure_body)
            &&& marks_any(out->inputs) || marks(*out->Closure_body) ==> uses_ctx(c1)
            &&& ctx_kept(c, c1)
            &&& !e->capture ==> passed(c, c1, out)
        }),
    decreases e, 0int,
{
    match e {
        ExprView::Closure { capture, typed, inputs, body } => {
            let c0 = c.push_frame();
            lemma_fold_list_passed(c0, inputs, t);
            lemma_fold_list_shape(c0, inputs, t);
            let c1 = fold_list(c0, inputs, t)->Ok_0.0;
            lemma_fold_expr_passed(c1, *body, t);
            let c2 = fold_expr(c1, *body, t)->Ok_0.0;
            lemma_ctx_kept(c, c0, c1);
            lemma_ctx_kept(c0, c1, c2);
            lemma_ctx_kept(c, c1, c2);
            lemma_ctx_kept(c1, c2, c2.pop_frame());
            lemma_ctx_kept(c, c2, c2.pop_frame());
        },
        _ => {},
    }
}

/// What redirecting an access to a facet returns has passed.
pub proof fn lemma_replace_builtin_passed(
    c: CtxView,
    caller: ExprView,
    facet: Seq<char>,
    t: BuiltinTableView,
)
    requires
        ready(c),
        replace_builtin(c, caller, facet, t) is Some,
        replace_builtin(c, caller, facet, t)->0 is Ok,
    ensures
        passed(
            c,
            replace_builtin(c, caller, facet, t)->0->Ok_0.0,
            replace_builtin(c, caller, facet, t)->0->Ok_0.1,
        ),
    decreases caller, 1int,
{
    lemma_expanded_is_other();
    match caller {
        ExprView::MethodCall { receiver, method, args } => {
            if is_write_method(method.name) {
                let c1 = replace_reference(c, *receiver, facet, true)->0->Ok_0.0;
                let access = replace_reference(c, *receiver, facet, true)->0->Ok_0.1;
                lemma_fold_list_passed(c1, args, t);
                let c2 = fold_list(c1, args, t)->Ok_0.0;
                lemma_ctx_kept(c, c1, c2);
                assert(settled(access));
                assert(!marks(access));
            }
        },
        _ => {},
    }
}

/// What the analysis returns of a field access has passed.
pub proof fn lemma_fold_field_passed(c: CtxView, e: ExprView, t: BuiltinTableView)
    requires
        ready(c),
        e is Field,
        fold_field(c, e, t) is Ok,
    ensures
        passed(c, fold_field(c, e, t)->Ok_0.0, fold_field(c, e, t)->Ok_0.1),
    decreases e, 0int,
{
    match e {
        ExprView::Field { base, member } => {
            let replaced = match member {
                MemberView::Named(m) => match lookup(t.fields, m.name) {
                    Some(facet) => replace_builtin(c, *base, snake_case_of(facet), t),
                    None => None,
                },
                MemberView::Unnamed(_) => None,
            };
            if replaced is Some {
                lemma_replace_builtin_passed(
                    c,
                    *base,
                    snake_case_of(lookup(t.fields, member->Named_0.name)->0),
                    t,
                );
            } else {
                lemma_fold_expr_passed(c, *base, t);
            }
        },
        _ => {},
    }
}

/// What the analysis returns of a method call has passed.
pub proof fn lemma_fold_method_call_passed(c: CtxView, e: ExprView, t: BuiltinTableView)
    requires
        ready(c),
        e is MethodCall,
        fold_method_call(c, e, t) is Ok,
    ensures
        passed(c, fold_method_call(c, e, t)->Ok_0.0, fold_method_call(c, e, t)->Ok_0.1),
    decreases e, 0int,
{
    lemma_expanded_is_other();
    match e {
        ExprView::MethodCall { receiver, method, args } => {
            let replaced = match lookup(t.methods, method.name) {
                Some(facet) => replace_builtin(c, *receiver, snake_case_of(facet), t),
                None => None,
            };
            let written = if is_write_method(method.name) {
                reference_of(*receiver)
            } else {
                None
            };
            let head = match replaced {
                Some(found) => found,
                None => match written {
                    Some(Ok(name)) => Ok(
                        (
                            c.add_ref(plain_ref(name, true)),
                            expanded(path_span(*receiver), seq![ident_token(name)]),
                        ),
                    ),
                    Some(Err(x)) => Err(x),
                    None => fold_expr(c, *receiver, t),
                },
            };
            if replaced is Some {
                let facet = snake_case_of(lookup(t.methods, method.name)->0);
                lemma_replace_builtin_passed(c, *receiver, facet, t);
                lemma_replace_builtin_shape(c, *receiver, facet, t);
            } else if written is None {
                lemma_fold_expr_passed(c, *receiver, t);
                lemma_fold_expr_shape(c, *receiver, t);
            }
            let c1 = head->Ok_0.0;
            let r = head->Ok_0.1;
            assert(passed(c, c1, r));
            lemma_fold_list_passed(c1, args, t);
            let c2 = fold_list(c1, args, t)->Ok_0.0;
            lemma_ctx_kept(c, c1, c2);
            lemma_ctx_kept(c1, c2, c2);
        },
        _ => {},
    }
}

/// What the analysis returns of a macro call has passed.
pub proof fn lemma_fold_macro_passed(c: CtxView, e: ExprView, t: BuiltinTableView)
    requires
        ready(c),
        e is Macro,
        fold_macro(c, e, t) is Ok,
    ensures
        passed(c, fold_macro(c, e, t)->Ok_0.0, fold_macro(c, e, t)->Ok_0.1),
    decreases e, 1int,
{
    lemma_expanded_is_other();
    match e {
        ExprView::Macro { path, tokens, code } => {
            match macro_kind(path.name) {
                MacroKind::Watch => {
                    lemma_fold_scoped_passed(c, e, true, t);
                },
                MacroKind::Pipe => {
                    lemma_fold_scoped_passed(c.mark_ctx(), e, true, t);
                    let c1 = fold_scoped(c.mark_ctx(), e, true, t)->Ok_0.0;
                    lemma_ctx_kept(c, c.mark_ctx(), c1);
                },
                MacroKind::FnWidget => {
                    lemma_fold_scoped_passed(c, e, false, t);
                },
                MacroKind::Rdl => {
                    lemma_fold_in_place_passed(c.mark_ctx(), e, t);
                    let c1 = fold_in_place(c.mark_ctx(), e, t)->Ok_0.0;
                    lemma_ctx_kept(c, c.mark_ctx(), c1);
                },
                MacroKind::SplitWriter => {
                    lemma_fold_in_place_passed(c, e, t);
                },
                MacroKind::MapWriter => {
                    lemma_fold_in_place_passed(c, e, t);
                },
                _ => {},
            }
        },
        _ => {},
    }
}

/// What the analysis returns of a macro call with a scope of its own has
/// passed.
pub proof fn lemma_fold_scoped_passed(c: CtxView, e: ExprView, derived: bool, t: BuiltinTableView)
    requires
        ready(c),
        e is Macro,
        fold_scoped(c, e, derived, t) is Ok,
    ensures
        passed(c, fold_scoped(c, e, derived, t)->Ok_0.0, fold_scoped(c, e, derived, t)->Ok_0.1),
    decreases e, 0int,
{
    match e {
        ExprView::Macro { path, tokens, code } => {
            let inner = c.enter_scope(derived);
            lemma_fold_list_passed(inner, code, t);
            lemma_fold_list_shape(inner, code, t);
            let c1 = fold_list(inner, code, t)->Ok_0.0;
            lemma_scope_shape(c, c1, derived);
            lemma_scope_kept(c, c1, derived);
        },
        _ => {},
    }
}

/// What the analysis returns of a macro call without a scope of its own has
/// passed.
pub proof fn lemma_fold_in_place_passed(c: CtxView, e: ExprView, t: BuiltinTableView)
    requires
        ready(c),
        e is Macro,
        fold_in_place(c, e, t) is Ok,
    ensures
        passed(c, fold_in_place(c, e, t)->Ok_0.0, fold_in_place(c, e, t)->Ok_0.1),
    decreases e, 0int,
{
    match e {
        ExprView::Macro { path, tokens, code } => {
            lemma_fold_list_passed(c, code, t);
        },
        _ => {},
    }
}

/// The scopes of `d` once the innermost is known to use the context, if
/// `used`.
pub open spec fn marked(d: CtxView, used: bool) -> Seq<ScopeView> {
    if used {
        d.mark_ctx().scopes
    } else {
        d.scopes
    }
}

/// Noting the use of the context twice is noting it once.
pub proof fn lemma_marked_twice(d: CtxView, d1: CtxView, d2: CtxView, a: bool, b: bool)
    requires
        d.scopes.len() > 0,
        d1.scopes == marked(d, a),
        d2.scopes == marked(d1, b),
    ensures
        d2.scopes == marked(d, a || b),
{
    assert(d2.scopes =~= marked(d, a || b));
}

/// A settled tree is no reference to a cell, and no write-family call on
/// one: no access to a facet is redirected at it.
pub proof fn lemma_settled_is_no_reference(
    d: CtxView,
    e: ExprView,
    facet: Seq<char>,
    t: BuiltinTableView,
)
    requires
        settled(e),
    ensures
        reference_of(e) is None,
        replace_builtin(d, e, facet, t) is None,
{
    match e {
        ExprView::MethodCall { receiver, method, args } => {
            assert(settled(*receiver));
            assert(reference_of(*receiver) is None);
        },
        _ => {},
    }
}

/// The analysis returns a settled tree as it is, and leaves the scopes as
/// they are, but for the use of the context that it notes.
pub proof fn lemma_fold_expr_fixed(d: CtxView, e: ExprView, t: BuiltinTableView)
    requires
        ready(d),
        settled(e),
    ensures
        fold_expr(d, e, t) is Ok,
        fold_expr(d, e, t)->Ok_0.1 == e,
        fold_expr(d, e, t)->Ok_0.0.scopes == marked(d, marks(e)),
    decreases e, 2int,
{
    match e {
        ExprView::Syntax { parts } => {
            lemma_fold_list_fixed(d, parts, t);
        },
        ExprView::Block { parts } => {
            lemma_fold_list_fixed(d.push_frame(), parts, t);
        },
        ExprView::Closure { capture, typed, inputs, body } => {
            if capture {
                let inner = d.enter_scope(true);
                lemma_fold_closure_fixed(inner, e, t);
                lemma_fold_closure_shape(inner, e, t);
                let d1 = fold_closure(inner, e, t)->Ok_0.0;
                assert(d1.scopes == inner.scopes);
                lemma_finalize_empty();
                let scope = d1.leave_scope(true).1;
                let outer = d1.leave_capture_level();
                let rest = d1.scopes.drop_last();
                assert(rest =~= d.scopes);
                assert(d1.scopes.last() == ScopeView::empty());
                assert(escaping(Seq::<DollarRefView>::empty(), outer) =~= Seq::<
                    DollarRefView,
                >::empty());
                assert(handed_on(Seq::<DollarRefView>::empty(), true) =~= Seq::<
                    DollarRefView,
                >::empty());
                assert(scope.refs.len() == 0);
                assert(!scope.used_ctx);
                assert(d1.leave_scope(true).0.scopes =~= d.scopes);
            } else {
                lemma_fold_closure_fixed(d, e, t);
            }
        },
        ExprView::Local { pat, init } => {
            match init {
                Some(i) => {
                    lemma_fold_expr_fixed(d, *i, t);
                    lemma_fold_expr_shape(d, *i, t);
                    let d1 = fold_expr(d, *i, t)->Ok_0.0;
                    lemma_fold_expr_fixed(d1, *pat, t);
                    let d2 = fold_expr(d1, *pat, t)->Ok_0.0;
                    lemma_marked_twice(d, d1, d2, marks(*i), marks(*pat));
                },
                None => {
                    lemma_fold_expr_fixed(d, *pat, t);
                },
            }
        },
        ExprView::PatIdent { ident, subpat } => {
            match subpat {
                Some(s) => {
                    lemma_fold_expr_fixed(d.declare(ident.name), *s, t);
                },
                None => {},
            }
        },
        ExprView::ItemConst { ident, parts } => {
            lemma_fold_list_fixed(d.declare(ident.name), parts, t);
        },
        ExprView::Field { base, member } => {
            lemma_fold_expr_fixed(d, *base, t);
            match member {
                MemberView::Named(m) => {
                    match lookup(t.fields, m.name) {
                        Some(facet) => {
                            lemma_settled_is_no_reference(d, *base, snake_case_of(facet), t);
                        },
                        None => {},
                    }
                },
                MemberView::Unnamed(_) => {},
            }
            assert(fold_expr(d, e, t) == fold_field(d, e, t));
        },
        ExprView::MethodCall { receiver, method, args } => {
            lemma_fold_expr_fixed(d, *receiver, t);
            lemma_fold_expr_shape(d, *receiver, t);
            let d1 = fold_expr(d, *receiver, t)->Ok_0.0;
            lemma_fold_list_fixed(d1, args, t);
            let d2 = fold_list(d1, args, t)->Ok_0.0;
            lemma_marked_twice(d, d1, d2, marks(*receiver), marks_any(args));
            match lookup(t.methods, method.name) {
                Some(facet) => {
                    lemma_settled_is_no_reference(d, *receiver, snake_case_of(facet), t);
                },
                None => {},
            }
            lemma_settled_is_no_reference(d, *receiver, Seq::empty(), t);
            assert(fold_expr(d, e, t) == fold_method_call(d, e, t));
        },
        ExprView::Macro { path, tokens, code } => {
            assert(fold_expr(d, e, t) == fold_macro(d, e, t));
        },
        _ => {},
    }
}

/// The analysis returns a list of settled trees as it is.
pub proof fn lemma_fold_list_fixed(d: CtxView, parts: Seq<ExprView>, t: BuiltinTableView)
    requires
        ready(d),
        settled_all(parts),
    ensures
        fold_list(d, parts, t) is Ok,
        fold_list(d, parts, t)->Ok_0.1 == parts,
        fold_list(d, parts, t)->Ok_0.0.scopes == marked(d, marks_any(parts)),
    decreases parts, 0int,
{
    if parts.len() > 0 {
        lemma_fold_list_fixed(d, parts.drop_last(), t);
        lemma_fold_list_shape(d, parts.drop_last(), t);
        let d1 = fold_list(d, parts.drop_last(), t)->Ok_0.0;
        lemma_fold_expr_fixed(d1, parts.last(), t);
        let d2 = fold_expr(d1, parts.last(), t)->Ok_0.0;
        lemma_marked_twice(d, d1, d2, marks_any(parts.drop_last()), marks(parts.last()));
        assert(parts.drop_last().push(parts.last()) =~= parts);
    } else {
        assert(fold_list(d, parts, t)->Ok_0.1 =~= parts);
    }
}

/// The analysis returns a closure of settled parts as it is.
pub proof fn lemma_fold_closure_fixed(d: CtxView, e: ExprView, t: BuiltinTableView)
    requires
        ready(d),
        e is Closure,
        settled_all(e->inputs),
        settled(*e->Closure_body),
    ensures
        fold_closure(d, e, t) is Ok,
        fold_closure(d, e, t)->Ok_0.1 == e,
        fold_closure(d, e, t)->Ok_0.0.scopes == marked(
            d,
            marks_any(e->inputs) || marks(*e->Closure_body),
        ),
    decreases e, 0int,
{
    match e {
        ExprView::Closure { capture, typed, inputs, body } => {
            let d0 = d.push_frame();
            lemma_fold_list_fixed(d0, inputs, t);
            lemma_fold_list_shape(d0, inputs, t);
            let d1 = fold_list(d0, inputs, t)->Ok_0.0;
            lemma_fold_expr_fixed(d1, *body, t);
            let d2 = fold_expr(d1, *body, t)->Ok_0.0;
            lemma_marked_twice(d0, d1, d2, marks_any(inputs), marks(*body));
        },
        _ => {},
    }
}

/// Analysing what an analysis has returned changes nothing: the tree comes
/// back as it is.
pub proof fn analysis_is_idempotent(e: ExprView, t: BuiltinTableView)
    requires
        analyzed(e, t) is Ok,
    ensures
        analyzed(analyzed(e, t)->Ok_0.0, t) is Ok,
        analyzed(analyzed(e, t)->Ok_0.0, t)->Ok_0.0 == analyzed(e, t)->Ok_0.0,
{
    let top = CtxView::top_level();
    lemma_fold_expr_passed(top, e, t);
    let out = fold_expr(top, e, t)->Ok_0.1;
    lemma_fold_expr_fixed(top, out, t);
}

/// Analysing what an analysis has returned changes nothing, whatever the
/// states in which the two analyses begin.
pub proof fn analysis_is_idempotent_in(c: CtxView, d: CtxView, e: ExprView, t: BuiltinTableView)
    requires
        ready(c),
        ready(d),
        fold_expr(c, e, t) is Ok,
    ensures
        fold_expr(d, fold_expr(c, e, t)->Ok_0.1, t) is Ok,
        fold_expr(d, fold_expr(c, e, t)->Ok_0.1, t)->Ok_0.1 == fold_expr(c, e, t)->Ok_0.1,
{
    lemma_fold_expr_passed(c, e, t);
    lemma_fold_expr_fixed(d, fold_expr(c, e, t)->Ok_0.1, t);
}

} // verus!
