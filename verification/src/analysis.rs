//! What the analysis makes of a piece of code, stated on the values of the
//! tree and of the state.
//!
//! The analysis walks the tree in the order of evaluation. It keeps track of
//! the variables in sight, rewrites every reference to a state cell into
//! code that reads or writes the cell, and records the reference in the
//! innermost scope unless the variable is local there. A capturing closure
//! that refers to cells outside it, or to the build context, becomes the
//! closure together with the manifest of what it has to hold.

use vstd::prelude::*;
use crate::builtin::{facet_accessor, facet_variable, lookup, snake_case_of, BuiltinTableView};
use crate::codegen::{builtin_host, ident_token, read_access};
use crate::ctx::CtxView;
use crate::expr::{ExprView, MemberView};
use crate::names::IdentView;
use crate::refs::{BuiltinInfoView, DollarRefView};
use crate::scope::ScopeView;
use crate::symbol::{
    KW_CTX, KW_DOLLAR_STR, KW_FN_WIDGET, KW_MAP_WRITER, KW_PIPE, KW_RDL, KW_SPLIT_WRITER, KW_WATCH,
};
use crate::tokens::{stream_span, Span, TokenView};

verus! {

/// The path that marks a macro call as rewritten: such a call is left alone.
pub const KW_EXPANDED: &'static str = "ribir_expanded_ಠ_ಠ";

/// Why a piece of code cannot be analysed.
#[derive(Clone, Copy, Debug, PartialEq, Eq, Structural)]
pub enum AnalyzeError {
    /// A reference macro whose tokens are not `$` and an identifier.
    MalformedReference { span: Span },
    /// A derived value whose code refers to no state cell.
    NotSubscribeAnything { span: Span },
}

/// The macros that the analysis knows.
#[derive(Clone, Copy, Debug, PartialEq, Eq, Structural)]
pub enum MacroKind {
    Reference,
    Watch,
    Pipe,
    Rdl,
    FnWidget,
    SplitWriter,
    MapWriter,
    Ctx,
    Other,
}

/// A tree and the state after it, or the error that ended the analysis.
pub type Folded = Result<(CtxView, ExprView), AnalyzeError>;

/// A list of trees and the state after them, or the error that ended the
/// analysis.
pub type FoldedList = Result<(CtxView, Seq<ExprView>), AnalyzeError>;

/// The states in which code can be analysed: the capture levels lie within
/// the frames, and a scope and a frame are open.
pub open spec fn ready(c: CtxView) -> bool {
    c.wf() && c.scopes.len() > 0 && c.stacks.len() > 0
}

/// Which macro a path names.
pub open spec fn macro_kind(path: Seq<char>) -> MacroKind {
    if path == KW_DOLLAR_STR@ {
        MacroKind::Reference
    } else if path == KW_WATCH@ {
        MacroKind::Watch
    } else if path == KW_PIPE@ {
        MacroKind::Pipe
    } else if path == KW_RDL@ {
        MacroKind::Rdl
    } else if path == KW_FN_WIDGET@ {
        MacroKind::FnWidget
    } else if path == KW_SPLIT_WRITER@ {
        MacroKind::SplitWriter
    } else if path == KW_MAP_WRITER@ {
        MacroKind::MapWriter
    } else if path == KW_CTX@ {
        MacroKind::Ctx
    } else {
        MacroKind::Other
    }
}

/// Whether a call of the method takes the writer of a cell.
pub open spec fn is_write_method(method: Seq<char>) -> bool {
    method == "write"@ || method == "silent"@ || method == "shallow"@
}

/// The cell that the tokens of a reference macro name: they are `$` and an
/// identifier.
pub open spec fn parse_reference(tokens: Seq<TokenView>) -> Option<IdentView> {
    if tokens.len() == 2 && tokens[0].is_punct('$') && tokens[1] is Ident {
        Some(IdentView { name: tokens[1]->name, span: tokens[1].span() })
    } else {
        None
    }
}

/// The cell that `e` refers to, if `e` is a reference macro; the error, if
/// it is a malformed one.
pub open spec fn reference_of(e: ExprView) -> Option<Result<IdentView, AnalyzeError>> {
    match e {
        ExprView::Macro { path, tokens, .. } => if macro_kind(path.name) == MacroKind::Reference {
            match parse_reference(tokens) {
                Some(name) => Some(Ok(name)),
                None => Some(Err(AnalyzeError::MalformedReference { span: path.span })),
            }
        } else {
            None
        },
        _ => None,
    }
}

/// A macro call that is marked as rewritten, with the code it stands for.
pub open spec fn expanded(span: Span, tokens: Seq<TokenView>) -> ExprView {
    ExprView::Macro {
        path: IdentView { name: KW_EXPANDED@, span },
        tokens,
        code: Seq::empty(),
    }
}

/// The place to report at what is wrong with `e`.
pub open spec fn path_span(e: ExprView) -> Span {
    match e {
        ExprView::Macro { path, .. } => path.span,
        _ => Span::spec_call_site(),
    }
}

/// The reference to the facet `facet` of `host`.
pub open spec fn facet_ref(host: IdentView, facet: Seq<char>, write: bool) -> DollarRefView {
    DollarRefView {
        name: facet_variable(host, facet),
        builtin: Some(BuiltinInfoView { host, member: facet_accessor(host, facet) }),
        write,
    }
}

/// The reference to the cell `name` itself.
pub open spec fn plain_ref(name: IdentView, write: bool) -> DollarRefView {
    DollarRefView { name, builtin: None, write }
}

/// What becomes of the reference `target` when an access goes to the facet
/// `facet` of its cell: the reference to the facet, recorded in the state,
/// and the code that reads the facet, or the facet itself where it is
/// written through. `None` where `target` is no reference.
pub open spec fn replace_reference(c: CtxView, target: ExprView, facet: Seq<char>, write: bool)
    -> Option<Folded> {
    match reference_of(target) {
        None => None,
        Some(Err(x)) => Some(Err(x)),
        Some(Ok(host)) => {
            let r = facet_ref(host, facet, write);
            let state = builtin_host(c, r);
            Some(
                Ok(
                    (
                        c.add_ref(r),
                        expanded(
                            path_span(target),
                            if write {
                                state
                            } else {
                                read_access(state)
                            },
                        ),
                    ),
                ),
            )
        },
    }
}

/// A closure once its manifest is known: alone if it captures no cell and
/// does not use the context, else together with its manifest, its body run
/// with the context where it uses it.
pub open spec fn capture_result(scope: ScopeView, closure: ExprView) -> ExprView
    recommends
        closure is Closure,
{
    if scope.used_ctx || scope.refs.len() > 0 {
        ExprView::Captured {
            scope,
            closure: Box::new(
                if scope.used_ctx {
                    ExprView::Closure {
                        capture: closure->capture,
                        typed: closure->typed,
                        inputs: closure->inputs,
                        body: Box::new(
                            ExprView::WithCtx {
                                braced: closure->typed,
                                body: closure->Closure_body,
                            },
                        ),
                    }
                } else {
                    closure
                },
            ),
        }
    } else {
        closure
    }
}

/// The analysis of `e` in the state `c`.
pub open spec fn fold_expr(c: CtxView, e: ExprView, t: BuiltinTableView) -> Folded
    decreases e, 2int,
{
    match e {
        ExprView::Syntax { parts } => match fold_list(c, parts, t) {
            Ok((c1, done)) => Ok((c1, ExprView::Syntax { parts: done })),
            Err(x) => Err(x),
        },
        ExprView::Block { parts } => match fold_list(c.push_frame(), parts, t) {
            Ok((c1, done)) => Ok((c1.pop_frame(), ExprView::Block { parts: done })),
            Err(x) => Err(x),
        },
        ExprView::Closure { capture, .. } => if capture {
            match fold_closure(c.enter_scope(true), e, t) {
                Ok((c1, closure)) => Ok(
                    (c1.leave_scope(true).0, capture_result(c1.leave_scope(true).1, closure)),
                ),
                Err(x) => Err(x),
            }
        } else {
            fold_closure(c, e, t)
        },
        ExprView::Local { pat, init } => match init {
            Some(i) => match fold_expr(c, *i, t) {
                Ok((c1, i1)) => match fold_expr(c1, *pat, t) {
                    Ok((c2, p1)) => Ok(
                        (c2, ExprView::Local { pat: Box::new(p1), init: Some(Box::new(i1)) }),
                    ),
                    Err(x) => Err(x),
                },
                Err(x) => Err(x),
            },
            None => match fold_expr(c, *pat, t) {
                Ok((c2, p1)) => Ok((c2, ExprView::Local { pat: Box::new(p1), init: None })),
                Err(x) => Err(x),
            },
        },
        ExprView::PatIdent { ident, subpat } => match subpat {
            Some(s) => match fold_expr(c.declare(ident.name), *s, t) {
                Ok((c1, s1)) => Ok(
                    (c1, ExprView::PatIdent { ident, subpat: Some(Box::new(s1)) }),
                ),
                Err(x) => Err(x),
            },
            None => Ok((c.declare(ident.name), e)),
        },
        ExprView::ItemConst { ident, parts } => match fold_list(c.declare(ident.name), parts, t) {
            Ok((c1, done)) => Ok((c1, ExprView::ItemConst { ident, parts: done })),
            Err(x) => Err(x),
        },
        ExprView::Field { .. } => fold_field(c, e, t),
        ExprView::MethodCall { .. } => fold_method_call(c, e, t),
        ExprView::Macro { .. } => fold_macro(c, e, t),
        ExprView::Generated { .. } => Ok((c, e)),
        ExprView::Captured { .. } => Ok((c, e)),
        ExprView::WithCtx { .. } => Ok((c, e)),
    }
}

/// The analysis of the expressions `parts`, one after the other.
pub open spec fn fold_list(c: CtxView, parts: Seq<ExprView>, t: BuiltinTableView) -> FoldedList
    decreases parts, 0int,
{
    if parts.len() == 0 {
        Ok((c, Seq::empty()))
    } else {
        match fold_list(c, parts.drop_last(), t) {
            Ok((c1, done)) => match fold_expr(c1, parts.last(), t) {
                Ok((c2, last)) => Ok((c2, done.push(last))),
                Err(x) => Err(x),
            },
            Err(x) => Err(x),
        }
    }
}

/// The analysis of the closure `e`: its parameters and its body, in a frame
/// of their own.
pub open spec fn fold_closure(c: CtxView, e: ExprView, t: BuiltinTableView) -> Folded
    recommends
        e is Closure,
    decreases e, 0int,
{
    match e {
        ExprView::Closure { capture, typed, inputs, body } => match fold_list(
            c.push_frame(),
            inputs,
            t,
        ) {
            Ok((c1, ins)) => match fold_expr(c1, *body, t) {
                Ok((c2, b)) => Ok(
                    (
                        c2.pop_frame(),
                        ExprView::Closure { capture, typed, inputs: ins, body: Box::new(b) },
                    ),
                ),
                Err(x) => Err(x),
            },
            Err(x) => Err(x),
        },
        _ => Ok((c, e)),
    }
}

/// What becomes of `caller`, the object of an access to the facet `facet`,
/// if it is a reference to a cell, or a write-family call on one.
///
/// The reference then goes to the facet alone, so that a closure which uses
/// one facet of an object does not capture the whole object. `None` where
/// `caller` is no such reference.
pub open spec fn replace_builtin(
    c: CtxView,
    caller: ExprView,
    facet: Seq<char>,
    t: BuiltinTableView,
) -> Option<Folded>
    decreases caller, 1int,
{
    match caller {
        ExprView::MethodCall { receiver, method, args } => if is_write_method(method.name) {
            match replace_reference(c, *receiver, facet, true) {
                Some(Ok((c1, access))) => Some(
                    match fold_list(c1, args, t) {
                        Ok((c2, done)) => Ok(
                            (
                                c2,
                                ExprView::MethodCall {
                                    receiver: Box::new(access),
                                    method,
                                    args: done,
                                },
                            ),
                        ),
                        Err(x) => Err(x),
                    },
                ),
                Some(Err(x)) => Some(Err(x)),
                None => None,
            }
        } else {
            replace_reference(c, caller, facet, false)
        },
        _ => replace_reference(c, caller, facet, false),
    }
}

/// The analysis of the field access `e`: an access to a member that belongs
/// to a facet, on a reference to a cell, goes to the facet.
pub open spec fn fold_field(c: CtxView, e: ExprView, t: BuiltinTableView) -> Folded
    recommends
        e is Field,
    decreases e, 0int,
{
    match e {
        ExprView::Field { base, member } => {
            let replaced = match member {
                MemberView::Named(m) => match lookup(t.fields, m.name) {
                    Some(facet) => replace_builtin(c, *base, snake_case_of(facet), t),
                    None => None,
                },
                MemberView::Unnamed(_) => None,
            };
            match replaced {
                Some(Ok((c1, b))) => Ok((c1, ExprView::Field { base: Box::new(b), member })),
                Some(Err(x)) => Err(x),
                None => match fold_expr(c, *base, t) {
                    Ok((c1, b)) => Ok((c1, ExprView::Field { base: Box::new(b), member })),
                    Err(x) => Err(x),
                },
            }
        },
        _ => Ok((c, e)),
    }
}

/// The analysis of the method call `e`. A method that belongs to a facet,
/// called on a reference to a cell, goes to the facet. A write-family method
/// called on a reference takes the writer of the cell. The arguments are
/// analysed behind the receiver.
pub open spec fn fold_method_call(c: CtxView, e: ExprView, t: BuiltinTableView) -> Folded
    recommends
        e is MethodCall,
    decreases e, 0int,
{
    match e {
        ExprView::MethodCall { receiver, method, args } => {
            let replaced = match lookup(t.methods, method.name) {
                Some(facet) => replace_builtin(c, *receiver, snake_case_of(facet), t),
                None => None,
            };
            let written = if is_write_method(method.name) {
                reference_of(*receiver)
            } else {
                None
            };
            let head = match replaced {
                Some(found) => found,
                None => match written {
                    Some(Ok(name)) => Ok(
                        (
                            c.add_ref(plain_ref(name, true)),
                            expanded(path_span(*receiver), seq![ident_token(name)]),
                        ),
                    ),
                    Some(Err(x)) => Err(x),
                    None => fold_expr(c, *receiver, t),
                },
            };
            match head {
                Ok((c1, r)) => match fold_list(c1, args, t) {
                    Ok((c2, done)) => Ok(
                        (c2, ExprView::MethodCall { receiver: Box::new(r), method, args: done }),
                    ),
                    Err(x) => Err(x),
                },
                Err(x) => Err(x),
            }
        },
        _ => Ok((c, e)),
    }
}

/// The analysis of the macro call `e`.
///
/// A reference reads its cell. A derived value, `pipe` or `watch`, is a
/// scope with a capture level of its own and has to refer to a cell. A
/// deferred widget is a scope without a capture level. Declarations and
/// writer macros are analysed where they stand. `pipe` and declarations use
/// the build context, as `ctx` itself does. Any other macro is left alone.
pub open spec fn fold_macro(c: CtxView, e: ExprView, t: BuiltinTableView) -> Folded
    recommends
        e is Macro,
    decreases e, 1int,
{
    match e {
        ExprView::Macro { path, tokens, code } => match macro_kind(path.name) {
            MacroKind::Reference => match parse_reference(tokens) {
                Some(name) => Ok(
                    (
                        c.add_ref(plain_ref(name, false)),
                        expanded(path.span, read_access(seq![ident_token(name)])),
                    ),
                ),
                None => Err(AnalyzeError::MalformedReference { span: path.span }),
            },
            MacroKind::Watch => fold_scoped(c, e, true, t),
            MacroKind::Pipe => fold_scoped(c.mark_ctx(), e, true, t),
            MacroKind::FnWidget => fold_scoped(c, e, false, t),
            MacroKind::Rdl => fold_in_place(c.mark_ctx(), e, t),
            MacroKind::SplitWriter => fold_in_place(c, e, t),
            MacroKind::MapWriter => fold_in_place(c, e, t),
            MacroKind::Ctx => Ok((c.mark_ctx(), e)),
            MacroKind::Other => Ok((c, e)),
        },
        _ => Ok((c, e)),
    }
}

/// The analysis of a macro call whose body is a scope of its own. With
/// `derived` the scope has a capture level and must refer to a cell.
pub open spec fn fold_scoped(c: CtxView, e: ExprView, derived: bool, t: BuiltinTableView) -> Folded
    recommends
        e is Macro,
    decreases e, 0int,
{
    match e {
        ExprView::Macro { path, tokens, code } => match fold_list(c.enter_scope(derived), code, t) {
            Ok((c1, done)) => {
                let (c2, scope) = c1.leave_scope(derived);
                if derived && scope.refs.len() == 0 {
                    Err(AnalyzeError::NotSubscribeAnything { span: stream_span(tokens) })
                } else {
                    Ok((c2, ExprView::Generated { origin: path, scope, code: done }))
                }
            },
            Err(x) => Err(x),
        },
        _ => Ok((c, e)),
    }
}

/// The analysis of a macro call whose body belongs to the scope around it.
pub open spec fn fold_in_place(c: CtxView, e: ExprView, t: BuiltinTableView) -> Folded
    recommends
        e is Macro,
    decreases e, 0int,
{
    match e {
        ExprView::Macro { path, tokens, code } => match fold_list(c, code, t) {
            Ok((c1, done)) => Ok(
                (c1, ExprView::Generated { origin: path, scope: ScopeView::empty(), code: done }),
            ),
            Err(x) => Err(x),
        },
        _ => Ok((c, e)),
    }
}

/// Whether as many scopes and frames are open in `b` as in `a`, with the
/// same capture levels.
pub open spec fn same_shape(a: CtxView, b: CtxView) -> bool {
    &&& b.heads == a.heads
    &&& b.stacks.len() == a.stacks.len()
    &&& b.scopes.len() == a.scopes.len()
}

/// Closing a scope undoes what opening it did to the shape of the state.
pub proof fn lemma_scope_shape(c: CtxView, c1: CtxView, has_capture: bool)
    requires
        ready(c),
        ready(c1),
        same_shape(c.enter_scope(has_capture), c1),
    ensures
        ready(c1.leave_scope(has_capture).0),
        same_shape(c, c1.leave_scope(has_capture).0),
{
    let rest = c1.scopes.drop_last();
    assert(rest.len() > 0);
    if has_capture {
        assert(c1.heads.drop_last() =~= c.heads);
    }
}

/// The analysis leaves open what was open: every scope, frame and capture
/// level that it opens, it closes.
pub proof fn lemma_fold_expr_shape(c: CtxView, e: ExprView, t: BuiltinTableView)
    requires
        ready(c),
        fold_expr(c, e, t) is Ok,
    ensures
        ready(fold_expr(c, e, t)->Ok_0.0),
        same_shape(c, fold_expr(c, e, t)->Ok_0.0),
    decreases e, 2int,
{
    match e {
        ExprView::Syntax { parts } => {
            lemma_fold_list_shape(c, parts, t);
        },
        ExprView::Block { parts } => {
            lemma_fold_list_shape(c.push_frame(), parts, t);
        },
        ExprView::Closure { capture, .. } => {
            if capture {
                lemma_fold_closure_shape(c.enter_scope(true), e, t);
                let c1 = fold_closure(c.enter_scope(true), e, t)->Ok_0.0;
                lemma_scope_shape(c, c1, true);
            } else {
                lemma_fold_closure_shape(c, e, t);
            }
        },
        ExprView::Local { pat, init } => {
            match init {
                Some(i) => {
                    lemma_fold_expr_shape(c, *i, t);
                    lemma_fold_expr_shape(fold_expr(c, *i, t)->Ok_0.0, *pat, t);
                },
                None => {
                    lemma_fold_expr_shape(c, *pat, t);
                },
            }
        },
        ExprView::PatIdent { ident, subpat } => {
            match subpat {
                Some(s) => {
                    lemma_fold_expr_shape(c.declare(ident.name), *s, t);
                },
                None => {},
            }
        },
        ExprView::ItemConst { ident, parts } => {
            lemma_fold_list_shape(c.declare(ident.name), parts, t);
        },
        ExprView::Field { .. } => {
            lemma_fold_field_shape(c, e, t);
        },
        ExprView::MethodCall { .. } => {
            lemma_fold_method_call_shape(c, e, t);
        },
        ExprView::Macro { .. } => {
            lemma_fold_macro_shape(c, e, t);
        },
        _ => {},
    }
}

/// The analysis of a field access leaves open what was open.
pub proof fn lemma_fold_field_shape(c: CtxView, e: ExprView, t: BuiltinTableView)
    requires
        ready(c),
        e is Field,
        fold_field(c, e, t) is Ok,
    ensures
        ready(fold_field(c, e, t)->Ok_0.0),
        same_shape(c, fold_field(c, e, t)->Ok_0.0),
    decreases e, 0int,
{
    match e {
        ExprView::Field { base, member } => {
            let replaced = match member {
                MemberView::Named(m) => match lookup(t.fields, m.name) {
                    Some(facet) => replace_builtin(c, *base, snake_case_of(facet), t),
                    None => None,
                },
                MemberView::Unnamed(_) => None,
            };
            if replaced is Some {
                lemma_replace_builtin_shape(
                    c,
                    *base,
                    snake_case_of(lookup(t.fields, member->Named_0.name)->0),
                    t,
                );
            } else {
                lemma_fold_expr_shape(c, *base, t);
            }
        },
        _ => {},
    }
}

/// Redirecting an access to a facet leaves open what was open.
pub proof fn lemma_replace_builtin_shape(
    c: CtxView,
    caller: ExprView,
    facet: Seq<char>,
    t: BuiltinTableView,
)
    requires
        ready(c),
        replace_builtin(c, caller, facet, t) is Some,
        replace_builtin(c, caller, facet, t)->0 is Ok,
    ensures
        ready(replace_builtin(c, caller, facet, t)->0->Ok_0.0),
        same_shape(c, replace_builtin(c, caller, facet, t)->0->Ok_0.0),
    decreases caller, 1int,
{
    match caller {
        ExprView::MethodCall { receiver, method, args } => {
            if is_write_method(method.name) {
                let c1 = replace_reference(c, *receiver, facet, true)->0->Ok_0.0;
                lemma_fold_list_shape(c1, args, t);
            }
        },
        _ => {},
    }
}

/// The analysis of a method call leaves open what was open.
pub proof fn lemma_fold_method_call_shape(c: CtxView, e: ExprView, t: BuiltinTableView)
    requires
        ready(c),
        e is MethodCall,
        fold_method_call(c, e, t) is Ok,
    ensures
        ready(fold_method_call(c, e, t)->Ok_0.0),
        same_shape(c, fold_method_call(c, e, t)->Ok_0.0),
    decreases e, 0int,
{
    match e {
        ExprView::MethodCall { receiver, method, args } => {
            let replaced = match lookup(t.methods, method.name) {
                Some(facet) => replace_builtin(c, *receiver, snake_case_of(facet), t),
                None => None,
            };
            let written = if is_write_method(method.name) {
                reference_of(*receiver)
            } else {
                None
            };
            let head = match replaced {
                Some(found) => found,
                None => match written {
                    Some(Ok(name)) => Ok(
                        (
                            c.add_ref(plain_ref(name, true)),
                            expanded(path_span(*receiver), seq![ident_token(name)]),
                        ),
                    ),
                    Some(Err(x)) => Err(x),
                    None => fold_expr(c, *receiver, t),
                },
            };
            if replaced is Some {
                lemma_replace_builtin_shape(
                    c,
                    *receiver,
                    snake_case_of(lookup(t.methods, method.name)->0),
                    t,
                );
            } else if written is None {
                lemma_fold_expr_shape(c, *receiver, t);
            }
            lemma_fold_list_shape(head->Ok_0.0, args, t);
        },
        _ => {},
    }
}

/// The analysis of a macro call leaves open what was open.
pub proof fn lemma_fold_macro_shape(c: CtxView, e: ExprView, t: BuiltinTableView)
    requires
        ready(c),
        e is Macro,
        fold_macro(c, e, t) is Ok,
    ensures
        ready(fold_macro(c, e, t)->Ok_0.0),
        same_shape(c, fold_macro(c, e, t)->Ok_0.0),
    decreases e, 1int,
{
    match e {
        ExprView::Macro { path, tokens, code } => {
            match macro_kind(path.name) {
                MacroKind::Watch => {
                    lemma_fold_scoped_shape(c, e, true, t);
                },
                MacroKind::Pipe => {
                    lemma_fold_scoped_shape(c.mark_ctx(), e, true, t);
                },
                MacroKind::FnWidget => {
                    lemma_fold_scoped_shape(c, e, false, t);
                },
                MacroKind::Rdl => {
                    lemma_fold_in_place_shape(c.mark_ctx(), e, t);
                },
                MacroKind::SplitWriter => {
                    lemma_fold_in_place_shape(c, e, t);
                },
                MacroKind::MapWriter => {
                    lemma_fold_in_place_shape(c, e, t);
                },
                _ => {},
            }
        },
        _ => {},
    }
}

/// The analysis of a macro call with a scope of its own leaves open what
/// was open.
pub proof fn lemma_fold_scoped_shape(c: CtxView, e: ExprView, derived: bool, t: BuiltinTableView)
    requires
        ready(c),
        e is Macro,
        fold_scoped(c, e, derived, t) is Ok,
    ensures
        ready(fold_scoped(c, e, derived, t)->Ok_0.0),
        same_shape(c, fold_scoped(c, e, derived, t)->Ok_0.0),
    decreases e, 0int,
{
    match e {
        ExprView::Macro { path, tokens, code } => {
            lemma_fold_list_shape(c.enter_scope(derived), code, t);
            lemma_scope_shape(c, fold_list(c.enter_scope(derived), code, t)->Ok_0.0, derived);
        },
        _ => {},
    }
}

/// The analysis of a macro call without a scope of its own leaves open what
/// was open.
pub proof fn lemma_fold_in_place_shape(c: CtxView, e: ExprView, t: BuiltinTableView)
    requires
        ready(c),
        e is Macro,
        fold_in_place(c, e, t) is Ok,
    ensures
        ready(fold_in_place(c, e, t)->Ok_0.0),
        same_shape(c, fold_in_place(c, e, t)->Ok_0.0),
    decreases e, 0int,
{
    match e {
        ExprView::Macro { path, tokens, code } => {
            lemma_fold_list_shape(c, code, t);
        },
        _ => {},
    }
}

/// The analysis of a list leaves open what was open.
pub proof fn lemma_fold_list_shape(c: CtxView, parts: Seq<ExprView>, t: BuiltinTableView)
    requires
        ready(c),
        fold_list(c, parts, t) is Ok,
    ensures
        ready(fold_list(c, parts, t)->Ok_0.0),
        same_shape(c, fold_list(c, parts, t)->Ok_0.0),
        fold_list(c, parts, t)->Ok_0.1.len() == parts.len(),
    decreases parts, 0int,
{
    if parts.len() > 0 {
        lemma_fold_list_shape(c, parts.drop_last(), t);
        lemma_fold_expr_shape(fold_list(c, parts.drop_last(), t)->Ok_0.0, parts.last(), t);
    }
}

/// The analysis of a closure leaves open what was open.
pub proof fn lemma_fold_closure_shape(c: CtxView, e: ExprView, t: BuiltinTableView)
    requires
        ready(c),
        e is Closure,
        fold_closure(c, e, t) is Ok,
    ensures
        ready(fold_closure(c, e, t)->Ok_0.0),
        same_shape(c, fold_closure(c, e, t)->Ok_0.0),
        fold_closure(c, e, t)->Ok_0.1 is Closure,
    decreases e, 0int,
{
    match e {
        ExprView::Closure { capture, typed, inputs, body } => {
            lemma_fold_list_shape(c.push_frame(), inputs, t);
            let c1 = fold_list(c.push_frame(), inputs, t)->Ok_0.0;
            lemma_fold_expr_shape(c1, *body, t);
        },
        _ => {},
    }
}

/// An error in a part of a list is the error of the list.
pub proof fn lemma_fold_list_error(c: CtxView, parts: Seq<ExprView>, k: int, t: BuiltinTableView)
    requires
        0 <= k <= parts.len(),
        fold_list(c, parts.take(k), t) is Err,
    ensures
        fold_list(c, parts, t) == fold_list(c, parts.take(k), t),
    decreases parts.len() - k,
{
    if k == parts.len() {
        assert(parts.take(k) =~= parts);
    } else {
        assert(parts.drop_last().take(k) =~= parts.take(k));
        lemma_fold_list_error(c, parts.drop_last(), k, t);
    }
}

} // verus!
