//! What code refers to before it declares it is recorded: a reference to a
//! cell that stands in the code itself, before the code declares a variable
//! of that name, stands in the scope when the code has been analysed, if the
//! cell is not local where the code begins.

use vstd::prelude::*;
use crate::analysis::{
    facet_ref, fold_closure, fold_expr, fold_field, fold_in_place, fold_list, fold_macro,
    fold_method_call, fold_scoped, is_write_method, lemma_fold_expr_shape, lemma_fold_list_shape,
    lemma_replace_builtin_shape, macro_kind, parse_reference, plain_ref, ready, reference_of,
    replace_builtin, replace_reference, MacroKind,
};
use crate::builtin::{lookup, snake_case_of, BuiltinTableView};
use crate::ctx::CtxView;
use crate::expr::{ExprView, MemberView};
use crate::hygiene::{lemma_fold_closure_kept, lemma_fold_expr_kept, lemma_fold_list_kept};
use crate::recorded::{lemma_fold_expr_grown, lemma_fold_list_grown, lemma_replace_builtin_grown};
use crate::refs::DollarRefView;

verus! {

/// Whether `e` declares a variable of the name `name` that outlives `e`: in
/// the frame in which `e` stands, not in a block, a closure or a derived
/// value, whose frames end with them, nor in a macro that is left alone.
pub open spec fn declares(e: ExprView, name: Seq<char>) -> bool
    decreases e,
{
    match e {
        ExprView::Syntax { parts } => declares_any(parts, name),
        ExprView::Local { pat, init } => declares(*pat, name) || match init {
            Some(i) => declares(*i, name),
            None => false,
        },
        ExprView::PatIdent { ident, subpat } => ident.name == name || match subpat {
            Some(s) => declares(*s, name),
            None => false,
        },
        ExprView::ItemConst { ident, parts } => ident.name == name || declares_any(parts, name),
        ExprView::Field { base, .. } => declares(*base, name),
        ExprView::MethodCall { receiver, args, .. } => declares(*receiver, name) || declares_any(
            args,
            name,
        ),
        ExprView::Macro { path, code, .. } => match macro_kind(path.name) {
            MacroKind::FnWidget => declares_any(code, name),
            MacroKind::Rdl => declares_any(code, name),
            MacroKind::SplitWriter => declares_any(code, name),
            MacroKind::MapWriter => declares_any(code, name),
            _ => false,
        },
        _ => false,
    }
}

/// Whether one of `parts` declares a variable of the name `name` that
/// outlives it.
pub open spec fn declares_any(parts: Seq<ExprView>, name: Seq<char>) -> bool
    decreases parts,
{
    parts.len() > 0 && (declares_any(parts.drop_last(), name) || declares(parts.last(), name))
}

/// Whether a reference to the cell `name` stands in `e` itself, before `e`
/// declares a variable of that name: not in a capturing closure, a derived
/// value or a deferred widget inside `e`, which have scopes of their own,
/// nor in a macro that is left alone.
pub open spec fn refers_first(e: ExprView, name: Seq<char>) -> bool
    decreases e,
{
    match e {
        ExprView::Syntax { parts } => refers_first_any(parts, name),
        ExprView::Block { parts } => refers_first_any(parts, name),
        ExprView::Closure { capture, .. } => !capture && refers_first_inside(e, name),
        ExprView::Local { pat, init } => match init {
            Some(i) => refers_first(*i, name) || (!declares(*i, name) && refers_first(*pat, name)),
            None => refers_first(*pat, name),
        },
        ExprView::PatIdent { ident, subpat } => ident.name != name && match subpat {
            Some(s) => refers_first(*s, name),
            None => false,
        },
        ExprView::ItemConst { ident, parts } => ident.name != name && refers_first_any(
            parts,
            name,
        ),
        ExprView::Field { base, .. } => refers_first(*base, name),
        ExprView::MethodCall { receiver, args, .. } => refers_first(*receiver, name) || (!declares(
            *receiver,
            name,
        ) && refers_first_any(args, name)),
        ExprView::Macro { path, tokens, code } => match macro_kind(path.name) {
            MacroKind::Reference => parse_reference(tokens) is Some && parse_reference(
                tokens,
            )->0.name == name,
            MacroKind::Rdl => refers_first_any(code, name),
            MacroKind::SplitWriter => refers_first_any(code, name),
            MacroKind::MapWriter => refers_first_any(code, name),
            _ => false,
        },
        ExprView::Generated { .. } => false,
        ExprView::Captured { .. } => false,
        ExprView::WithCtx { .. } => false,
    }
}

/// Whether a reference to the cell `name` stands in one of `parts` itself,
/// before `parts` declare a variable of that name.
pub open spec fn refers_first_any(parts: Seq<ExprView>, name: Seq<char>) -> bool
    decreases parts,
{
    parts.len() > 0 && (refers_first_any(parts.drop_last(), name) || (!declares_any(
        parts.drop_last(),
        name,
    ) && refers_first(parts.last(), name)))
}

/// Whether a reference to the cell `name` stands in the parameters or the
/// body of the closure `e` itself, before they declare a variable of that
/// name.
pub open spec fn refers_first_inside(e: ExprView, name: Seq<char>) -> bool
    recommends
        e is Closure,
    decreases e, 0int,
{
    match e {
        ExprView::Closure { inputs, body, .. } => refers_first_any(inputs, name) || (!declares_any(
            inputs,
            name,
        ) && refers_first(*body, name)),
        _ => false,
    }
}

/// Whether the innermost scope of `c1` holds a reference to the cell `name`
/// behind as many references as the innermost scope of `c` holds.
pub open spec fn recorded_since(c: CtxView, c1: CtxView, name: Seq<char>) -> bool {
    exists|k: int|
        c.scopes.last().refs.len() <= k < c1.scopes.last().refs.len() && (
        #[trigger] c1.scopes.last().refs[k]).host().name == name
}

/// Whether the innermost scope of `c1` holds what that of `c` holds, at the
/// same places.
pub open spec fn extends(c: CtxView, c1: CtxView) -> bool {
    &&& c.scopes.last().refs.len() <= c1.scopes.last().refs.len()
    &&& forall|k: int|
        0 <= k < c.scopes.last().refs.len() ==> #[trigger] c1.scopes.last().refs[k]
            == c.scopes.last().refs[k]
}

/// What was recorded in one of two steps was recorded in both together.
pub proof fn lemma_since_trans(c: CtxView, c1: CtxView, c2: CtxView, name: Seq<char>)
    requires
        extends(c, c1),
        extends(c1, c2),
        recorded_since(c, c1, name) || recorded_since(c1, c2, name),
    ensures
        recorded_since(c, c2, name),
{
    if recorded_since(c, c1, name) {
        let k = choose|k: int|
            c.scopes.last().refs.len() <= k < c1.scopes.last().refs.len() && (
            #[trigger] c1.scopes.last().refs[k]).host().name == name;
        assert(c2.scopes.last().refs[k].host().name == name);
    } else {
        let k = choose|k: int|
            c1.scopes.last().refs.len() <= k < c2.scopes.last().refs.len() && (
            #[trigger] c2.scopes.last().refs[k]).host().name == name;
        assert(c2.scopes.last().refs[k].host().name == name);
    }
}

/// A state with the frames and capture levels of another has its locals.
pub proof fn lemma_same_locals(c: CtxView, d: CtxView, name: Seq<char>)
    requires
        d.stacks == c.stacks,
        d.heads == c.heads,
    ensures
        d.is_local(name) == c.is_local(name),
{
    if d.is_local(name) {
        let (i, j) = choose|i: int, j: int|
            d.head() <= i < d.stacks.len() && 0 <= j < d.stacks[i].len() && #[trigger] d.stacks[i][j]
                == name;
        assert(c.stacks[i][j] == name);
    }
    if c.is_local(name) {
        let (i, j) = choose|i: int, j: int|
            c.head() <= i < c.stacks.len() && 0 <= j < c.stacks[i].len() && #[trigger] c.stacks[i][j]
                == name;
        assert(d.stacks[i][j] == name);
    }
}

/// A new frame declares nothing.
pub proof fn lemma_push_free(c: CtxView, name: Seq<char>)
    requires
        !c.is_local(name),
    ensures
        !c.push_frame().is_local(name),
{
    let d = c.push_frame();
    if d.is_local(name) {
        let (i, j) = choose|i: int, j: int|
            d.head() <= i < d.stacks.len() && 0 <= j < d.stacks[i].len() && #[trigger] d.stacks[i][j]
                == name;
        assert(c.stacks[i][j] == name);
    }
}

/// Declaring a variable makes no variable of another name local.
pub proof fn lemma_declare_free(c: CtxView, declared: Seq<char>, name: Seq<char>)
    requires
        !c.is_local(name),
        declared != name,
        c.stacks.len() > 0,
    ensures
        !c.declare(declared).is_local(name),
        extends(c, c.declare(declared)),
        extends(c.declare(declared), c),
{
    let d = c.declare(declared);
    if d.is_local(name) {
        let (i, j) = choose|i: int, j: int|
            d.head() <= i < d.stacks.len() && 0 <= j < d.stacks[i].len() && #[trigger] d.stacks[i][j]
                == name;
        if i == c.stacks.len() - 1 && j == c.stacks[i].len() {
            assert(d.stacks[i][j] == declared);
        } else {
            assert(c.stacks[i][j] == name);
        }
    }
}

/// A reference to a cell that is not local is recorded.
pub proof fn lemma_add_ref_found(c: CtxView, r: DollarRefView, name: Seq<char>)
    requires
        c.scopes.len() > 0,
        !c.is_local(name),
    ensures
        !c.add_ref(r).is_local(name),
        extends(c, c.add_ref(r)),
        r.host().name == name ==> recorded_since(c, c.add_ref(r), name),
{
    let d = c.add_ref(r);
    lemma_same_locals(c, d, name);
    if r.host().name == name {
        let k = c.scopes.last().refs.len() as int;
        assert(d.scopes.last().refs[k] == r);
    }
}

/// A reference refers to its cell, and to no other, and declares nothing.
pub proof fn lemma_reference_refers(target: ExprView, name: Seq<char>)
    requires
        reference_of(target) is Some,
        reference_of(target)->0 is Ok,
    ensures
        refers_first(target, name) == (reference_of(target)->0->Ok_0.name == name),
        !declares(target, name),
{
}

/// Code that is analysed where a cell is not local records every reference
/// to the cell that stands in the code itself before the code declares a
/// variable of that name, and leaves the cell as it is unless it declares
/// such a variable.
pub proof fn lemma_fold_expr_found(c: CtxView, e: ExprView, t: BuiltinTableView, name: Seq<char>)
    requires
        ready(c),
        fold_expr(c, e, t) is Ok,
        !c.is_local(name),
    ensures
        !declares(e, name) ==> !fold_expr(c, e, t)->Ok_0.0.is_local(name),
        refers_first(e, name) ==> recorded_since(c, fold_expr(c, e, t)->Ok_0.0, name),
    decreases e, 2int,
{
    match e {
        ExprView::Syntax { parts } => {
            lemma_fold_list_found(c, parts, t, name);
        },
        ExprView::Block { parts } => {
            let c0 = c.push_frame();
            lemma_push_free(c, name);
            lemma_fold_list_found(c0, parts, t, name);
            lemma_fold_list_kept(c0, parts, t);
            let c1 = fold_list(c0, parts, t)->Ok_0.0;
            let closed = c1.pop_frame();
            assert(c1.stacks.drop_last() == c0.stacks.drop_last());
            assert(c0.stacks.drop_last() =~= c.stacks);
            lemma_same_locals(c, closed, name);
            if refers_first(e, name) {
                let k = choose|k: int|
                    c0.scopes.last().refs.len() <= k < c1.scopes.last().refs.len() && (
                    #[trigger] c1.scopes.last().refs[k]).host().name == name;
                assert(closed.scopes.last().refs[k].host().name == name);
            }
        },
        ExprView::Closure { capture, inputs, body, .. } => {
            if capture {
                let opened = c.enter_scope(true);
                lemma_fold_closure_kept(opened, e, t);
                let c1 = fold_closure(opened, e, t)->Ok_0.0;
                let left = c1.leave_scope(true).0;
                assert(c1.stacks.drop_last() == opened.stacks.drop_last());
                assert(opened.stacks.drop_last() =~= c.stacks);
                assert(left.stacks =~= c.stacks);
                assert(left.heads =~= c.heads);
                lemma_same_locals(c, left, name);
            } else {
                lemma_fold_closure_found(c, e, t, name);
            }
        },
        ExprView::Local { pat, init } => {
            match init {
                Some(i) => {
                    lemma_fold_expr_found(c, *i, t, name);
                    lemma_fold_expr_grown(c, *i, t);
                    lemma_fold_expr_shape(c, *i, t);
                    let c1 = fold_expr(c, *i, t)->Ok_0.0;
                    if !declares(*i, name) {
                        lemma_fold_expr_found(c1, *pat, t, name);
                    }
                    lemma_fold_expr_grown(c1, *pat, t);
                    let c2 = fold_expr(c1, *pat, t)->Ok_0.0;
                    if refers_first(e, name) {
                        lemma_since_trans(c, c1, c2, name);
                    }
                },
                None => {
                    lemma_fold_expr_found(c, *pat, t, name);
                },
            }
        },
        ExprView::PatIdent { ident, subpat } => {
            if ident.name != name {
                let d = c.declare(ident.name);
                lemma_declare_free(c, ident.name, name);
                match subpat {
                    Some(s) => {
                        lemma_fold_expr_found(d, *s, t, name);
                        lemma_fold_expr_grown(d, *s, t);
                        let c1 = fold_expr(d, *s, t)->Ok_0.0;
                        if refers_first(e, name) {
                            lemma_since_trans(c, d, c1, name);
                        }
                    },
                    None => {},
                }
            }
        },
        ExprView::ItemConst { ident, parts } => {
            if ident.name != name {
                let d = c.declare(ident.name);
                lemma_declare_free(c, ident.name, name);
                lemma_fold_list_found(d, parts, t, name);
                lemma_fold_list_grown(d, parts, t);
                let c1 = fold_list(d, parts, t)->Ok_0.0;
                if refers_first(e, name) {
                    lemma_since_trans(c, d, c1, name);
                }
            }
        },
        ExprView::Field { .. } => {
            lemma_fold_field_found(c, e, t, name);
        },
        ExprView::MethodCall { .. } => {
            lemma_fold_method_call_found(c, e, t, name);
        },
        ExprView::Macro { .. } => {
            lemma_fold_macro_found(c, e, t, name);
        },
        _ => {},
    }
}

/// The same for a list of code.
pub proof fn lemma_fold_list_found(
    c: CtxView,
    parts: Seq<ExprView>,
    t: BuiltinTableView,
    name: Seq<char>,
)
    requires
        ready(c),
        fold_list(c, parts, t) is Ok,
        !c.is_local(name),
    ensures
        !declares_any(parts, name) ==> !fold_list(c, parts, t)->Ok_0.0.is_local(name),
        refers_first_any(parts, name) ==> recorded_since(c, fold_list(c, parts, t)->Ok_0.0, name),
    decreases parts, 0int,
{
    if parts.len() > 0 {
        lemma_fold_list_found(c, parts.drop_last(), t, name);
        lemma_fold_list_grown(c, parts.drop_last(), t);
        lemma_fold_list_shape(c, parts.drop_last(), t);
        let c1 = fold_list(c, parts.drop_last(), t)->Ok_0.0;
        if !declares_any(parts.drop_last(), name) {
            lemma_fold_expr_found(c1, parts.last(), t, name);
        }
        lemma_fold_expr_grown(c1, parts.last(), t);
        let c2 = fold_expr(c1, parts.last(), t)->Ok_0.0;
        if refers_first_any(parts, name) {
            lemma_since_trans(c, c1, c2, name);
        }
    }
}

/// The same for the parameters and the body of a closure, whose frame ends
/// with it.
pub proof fn lemma_fold_closure_found(
    c: CtxView,
    e: ExprView,
    t: BuiltinTableView,
    name: Seq<char>,
)
    requires
        ready(c),
        e is Closure,
        fold_closure(c, e, t) is Ok,
        !c.is_local(name),
    ensures
        !fold_closure(c, e, t)->Ok_0.0.is_local(name),
        refers_first_inside(e, name) ==> recorded_since(c, fold_closure(c, e, t)->Ok_0.0, name),
    decreases e, 0int,
{
    match e {
        ExprView::Closure { capture, typed, inputs, body } => {
            let c0 = c.push_frame();
            lemma_push_free(c, name);
            lemma_fold_list_found(c0, inputs, t, name);
            lemma_fold_list_grown(c0, inputs, t);
            lemma_fold_list_shape(c0, inputs, t);
            lemma_fold_list_kept(c0, inputs, t);
            let c1 = fold_list(c0, inputs, t)->Ok_0.0;
            if !declares_any(inputs, name) {
                lemma_fold_expr_found(c1, *body, t, name);
            }
            lemma_fold_expr_grown(c1, *body, t);
            lemma_fold_expr_kept(c1, *body, t);
            let c2 = fold_expr(c1, *body, t)->Ok_0.0;
            let closed = c2.pop_frame();
            assert(c2.stacks.drop_last() == c1.stacks.drop_last());
            assert(c1.stacks.drop_last() == c0.stacks.drop_last());
            assert(c0.stacks.drop_last() =~= c.stacks);
            lemma_same_locals(c, closed, name);
            if refers_first_inside(e, name) {
                lemma_since_trans(c0, c1, c2, name);
                let k = choose|k: int|
                    c0.scopes.last().refs.len() <= k < c2.scopes.last().refs.len() && (
                    #[trigger] c2.scopes.last().refs[k]).host().name == name;
                assert(closed.scopes.last().refs[k].host().name == name);
            }
        },
        _ => {},
    }
}

/// The same for the object of an access that goes to a facet.
pub proof fn lemma_replace_builtin_found(
    c: CtxView,
    caller: ExprView,
    facet: Seq<char>,
    t: BuiltinTableView,
    name: Seq<char>,
)
    requires
        ready(c),
        replace_builtin(c, caller, facet, t) is Some,
        replace_builtin(c, caller, facet, t)->0 is Ok,
        !c.is_local(name),
    ensures
        !declares(caller, name) ==> !replace_builtin(c, caller, facet, t)->0->Ok_0.0.is_local(
            name,
        ),
        refers_first(caller, name) ==> recorded_since(
            c,
            replace_builtin(c, caller, facet, t)->0->Ok_0.0,
            name,
        ),
    decreases caller, 1int,
{
    match caller {
        ExprView::MethodCall { receiver, method, args } => {
            if is_write_method(method.name) {
                let host = reference_of(*receiver)->0->Ok_0;
                let r = facet_ref(host, facet, true);
                lemma_add_ref_found(c, r, name);
                lemma_reference_refers(*receiver, name);
                let c1 = replace_reference(c, *receiver, facet, true)->0->Ok_0.0;
                assert(c1 == c.add_ref(r));
                lemma_fold_list_found(c1, args, t, name);
                lemma_fold_list_grown(c1, args, t);
                let c2 = fold_list(c1, args, t)->Ok_0.0;
                if refers_first(caller, name) {
                    lemma_since_trans(c, c1, c2, name);
                }
            } else {
                let host = reference_of(caller)->0->Ok_0;
                lemma_reference_refers(caller, name);
                lemma_add_ref_found(c, facet_ref(host, facet, false), name);
            }
        },
        _ => {
            let host = reference_of(caller)->0->Ok_0;
            lemma_reference_refers(caller, name);
            lemma_add_ref_found(c, facet_ref(host, facet, false), name);
        },
    }
}

/// The same for a field access.
pub proof fn lemma_fold_field_found(c: CtxView, e: ExprView, t: BuiltinTableView, name: Seq<char>)
    requires
        ready(c),
        e is Field,
        fold_field(c, e, t) is Ok,
        !c.is_local(name),
    ensures
        !declares(e, name) ==> !fold_field(c, e, t)->Ok_0.0.is_local(name),
        refers_first(e, name) ==> recorded_since(c, fold_field(c, e, t)->Ok_0.0, name),
    decreases e, 0int,
{
    match e {
        ExprView::Field { base, member } => {
            let replaced = match member {
                MemberView::Named(m) => match lookup(t.fields, m.name) {
                    Some(facet) => replace_builtin(c, *base, snake_case_of(facet), t),
                    None => None,
                },
                MemberView::Unnamed(_) => None,
            };
            if replaced is Some {
                lemma_replace_builtin_found(
                    c,
                    *base,
                    snake_case_of(lookup(t.fields, member->Named_0.name)->0),
                    t,
                    name,
                );
            } else {
                lemma_fold_expr_found(c, *base, t, name);
            }
        },
        _ => {},
    }
}

/// The same for a method call.
pub proof fn lemma_fold_method_call_found(
    c: CtxView,
    e: ExprView,
    t: BuiltinTableView,
    name: Seq<char>,
)
    requires
        ready(c),
        e is MethodCall,
        fold_method_call(c, e, t) is Ok,
        !c.is_local(name),
    ensures
        !declares(e, name) ==> !fold_method_call(c, e, t)->Ok_0.0.is_local(name),
        refers_first(e, name) ==> recorded_since(c, fold_method_call(c, e, t)->Ok_0.0, name),
    decreases e, 0int,
{
    match e {
        ExprView::MethodCall { receiver, method, args } => {
            let replaced = match lookup(t.methods, method.name) {
                Some(facet) => replace_builtin(c, *receiver, snake_case_of(facet), t),
                None => None,
            };
            let written = if is_write_method(method.name) {
                reference_of(*receiver)
            } else {
                None
            };
            let c1 = if replaced is Some {
                replaced->0->Ok_0.0
            } else if written is None {
                fold_expr(c, *receiver, t)->Ok_0.0
            } else {
                c.add_ref(plain_ref(written->0->Ok_0, true))
            };
            if replaced is Some {
                let facet = snake_case_of(lookup(t.methods, method.name)->0);
                lemma_replace_builtin_found(c, *receiver, facet, t, name);
                lemma_replace_builtin_grown(c, *receiver, facet, t);
                lemma_replace_builtin_shape(c, *receiver, facet, t);
            } else if written is None {
                lemma_fold_expr_found(c, *receiver, t, name);
                lemma_fold_expr_grown(c, *receiver, t);
                lemma_fold_expr_shape(c, *receiver, t);
            } else {
                lemma_reference_refers(*receiver, name);
                lemma_add_ref_found(c, plain_ref(written->0->Ok_0, true), name);
            }
            if !declares(*receiver, name) {
                lemma_fold_list_found(c1, args, t, name);
            }
            lemma_fold_list_grown(c1, args, t);
            let c2 = fold_list(c1, args, t)->Ok_0.0;
            if refers_first(e, name) {
                lemma_since_trans(c, c1, c2, name);
            }
        },
        _ => {},
    }
}

/// The same for a macro call.
pub proof fn lemma_fold_macro_found(c: CtxView, e: ExprView, t: BuiltinTableView, name: Seq<char>)
    requires
        ready(c),
        e is Macro,
        fold_macro(c, e, t) is Ok,
        !c.is_local(name),
    ensures
        !declares(e, name) ==> !fold_macro(c, e, t)->Ok_0.0.is_local(name),
        refers_first(e, name) ==> recorded_since(c, fold_macro(c, e, t)->Ok_0.0, name),
    decreases e, 1int,
{
    lemma_same_locals(c, c.mark_ctx(), name);
    match e {
        ExprView::Macro { path, tokens, code } => {
            match macro_kind(path.name) {
                MacroKind::Reference => {
                    lemma_add_ref_found(c, plain_ref(parse_reference(tokens)->0, false), name);
                },
                MacroKind::Watch => {
                    lemma_fold_scoped_found(c, e, true, t, name);
                },
                MacroKind::Pipe => {
                    lemma_fold_scoped_found(c.mark_ctx(), e, true, t, name);
                },
                MacroKind::FnWidget => {
                    lemma_fold_scoped_found(c, e, false, t, name);
                },
                MacroKind::Rdl => {
                    lemma_fold_in_place_found(c.mark_ctx(), e, t, name);
                    if refers_first(e, name) {
                        let c1 = fold_in_place(c.mark_ctx(), e, t)->Ok_0.0;
                        let k = choose|k: int|
                            c.mark_ctx().scopes.last().refs.len() <= k < c1.scopes.last().refs.len()
                                && (#[trigger] c1.scopes.last().refs[k]).host().name == name;
                        assert(c1.scopes.last().refs[k].host().name == name);
                    }
                },
                MacroKind::SplitWriter => {
                    lemma_fold_in_place_found(c, e, t, name);
                },
                MacroKind::MapWriter => {
                    lemma_fold_in_place_found(c, e, t, name);
                },
                _ => {},
            }
        },
        _ => {},
    }
}

/// A macro call with a scope of its own makes local around it only what
/// it declares without a capture level.
pub proof fn lemma_fold_scoped_found(
    c: CtxView,
    e: ExprView,
    derived: bool,
    t: BuiltinTableView,
    name: Seq<char>,
)
    requires
        ready(c),
        e is Macro,
        fold_scoped(c, e, derived, t) is Ok,
        !c.is_local(name),
    ensures
        derived || !declares_any(e->Macro_code, name) ==> !fold_scoped(
            c,
            e,
            derived,
            t,
        )->Ok_0.0.is_local(name),
    decreases e, 0int,
{
    match e {
        ExprView::Macro { path, tokens, code } => {
            let opened = c.enter_scope(derived);
            let c1 = fold_list(opened, code, t)->Ok_0.0;
            let left = c1.leave_scope(derived).0;
            if derived {
                lemma_fold_list_kept(opened, code, t);
                assert(c1.stacks.drop_last() == opened.stacks.drop_last());
                assert(opened.stacks.drop_last() =~= c.stacks);
                assert(left.stacks =~= c.stacks);
                assert(left.heads =~= c.heads);
                lemma_same_locals(c, left, name);
            } else {
                lemma_same_locals(c, opened, name);
                lemma_fold_list_found(opened, code, t, name);
                lemma_same_locals(c1, left, name);
            }
        },
        _ => {},
    }
}

/// The same for a macro call whose body belongs to the scope around it.
pub proof fn lemma_fold_in_place_found(
    c: CtxView,
    e: ExprView,
    t: BuiltinTableView,
    name: Seq<char>,
)
    requires
        ready(c),
        e is Macro,
        fold_in_place(c, e, t) is Ok,
        !c.is_local(name),
    ensures
        !declares_any(e->Macro_code, name) ==> !fold_in_place(c, e, t)->Ok_0.0.is_local(name),
        refers_first_any(e->Macro_code, name) ==> recorded_since(
            c,
            fold_in_place(c, e, t)->Ok_0.0,
            name,
        ),
    decreases e, 0int,
{
    match e {
        ExprView::Macro { path, tokens, code } => {
            lemma_fold_list_found(c, code, t, name);
        },
        _ => {},
    }
}

} // verus!
