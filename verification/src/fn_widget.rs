//! The entry points of the analysis: a whole piece of code, analysed on its
//! own or inside code that is being analysed.

use vstd::prelude::*;
use crate::analysis::{
    fold_expr, fold_list, fold_scoped, lemma_scope_shape, ready, AnalyzeError,
};
use crate::builtin::{BuiltinTable, BuiltinTableView};
use crate::ctx::{CtxView, DollarRefsCtx};
use crate::expr::{exprs_view, Expr, ExprView};
use crate::fold::agrees;
use crate::names::{Ident, IdentView};
use crate::scope::{DollarRefsScope, ScopeView};
use crate::symbol::KW_FN_WIDGET;
use crate::tokens::Span;

verus! {

/// A rewritten tree with the manifest of the cells it refers to, or the
/// error that ended the analysis.
pub type Analyzed = Result<(ExprView, ScopeView), AnalyzeError>;

/// The call of the deferred-widget macro around the statements `code`.
pub open spec fn widget_call(code: Seq<ExprView>) -> ExprView {
    ExprView::Macro {
        path: IdentView { name: KW_FN_WIDGET@, span: Span::spec_call_site() },
        tokens: Seq::empty(),
        code,
    }
}

/// The deferred widget that the statements `code` make on their own: they
/// are analysed in a fresh state, whose one scope gives the manifest.
pub open spec fn widget_alone(code: Seq<ExprView>, t: BuiltinTableView) -> Result<
    ExprView,
    AnalyzeError,
> {
    match fold_list(CtxView::top_level(), code, t) {
        Ok((c1, done)) => Ok(
            ExprView::Generated {
                origin: IdentView { name: KW_FN_WIDGET@, span: Span::spec_call_site() },
                scope: c1.leave_scope(false).1,
                code: done,
            },
        ),
        Err(x) => Err(x),
    }
}

/// The analysis of `e` on its own: in a fresh state, whose one scope gives
/// the manifest.
pub open spec fn analyzed(e: ExprView, t: BuiltinTableView) -> Analyzed {
    match fold_expr(CtxView::top_level(), e, t) {
        Ok((c1, out)) => Ok((out, c1.leave_scope(false).1)),
        Err(x) => Err(x),
    }
}

/// The analysis of `e` inside code analysed up to the state `c`: in a scope
/// of its own, which gives the manifest and hands on to the scope around it
/// what is not local there either.
pub open spec fn analyzed_in(c: CtxView, e: ExprView, t: BuiltinTableView) -> Result<
    (CtxView, ExprView, ScopeView),
    AnalyzeError,
> {
    match fold_expr(c.enter_scope(false), e, t) {
        Ok((c1, out)) => Ok((c1.leave_scope(false).0, out, c1.leave_scope(false).1)),
        Err(x) => Err(x),
    }
}

/// Analyses the statements of a deferred widget and returns what the macro
/// call becomes: the rewritten statements with the manifest of the cells
/// that the widget has to hold.
///
/// With a state the statements belong to code that is being analysed: they
/// get a scope of their own in it. Without one they are analysed alone.
pub fn gen_code(input: &Vec<Expr>, ctx: Option<&mut DollarRefsCtx>, table: &BuiltinTable) -> (r:
    Result<Expr, AnalyzeError>)
    requires
        ctx matches Some(c) ==> ready(c@),
    ensures
        match ctx {
            Some(c) => agrees(
                fold_scoped(c@, widget_call(exprs_view(input@)), false, table@),
                r,
                final(c)@,
            ),
            None => match r {
                Ok(out) => widget_alone(exprs_view(input@), table@) == Ok::<_, AnalyzeError>(out@),
                Err(x) => widget_alone(exprs_view(input@), table@) == Err::<ExprView, _>(x),
            },
        },
{
    match ctx {
        Some(c) => {
            let ghost c0 = c@;
            c.new_dollar_scope(false);
            match c.fold_list(input, table) {
                Ok(stmts) => {
                    proof {
                        lemma_scope_shape(c0, c@, false);
                    }
                    let refs = c.pop_dollar_scope(false);
                    Ok(
                        Expr::Generated {
                            origin: Ident::new(KW_FN_WIDGET, Span::call_site()),
                            scope: refs,
                            code: stmts,
                        },
                    )
                },
                Err(x) => Err(x),
            }
        },
        None => {
            let mut top = DollarRefsCtx::top_level();
            match top.fold_list(input, table) {
                Ok(stmts) => {
                    let refs = top.pop_dollar_scope(false);
                    Ok(
                        Expr::Generated {
                            origin: Ident::new(KW_FN_WIDGET, Span::call_site()),
                            scope: refs,
                            code: stmts,
                        },
                    )
                },
                Err(x) => Err(x),
            }
        },
    }
}

/// Analyses a piece of code on its own. Returns the rewritten tree and the
/// manifest of the cells it refers to: sorted with facets first, one entry
/// for each name.
pub fn analyze(tree: &Expr, table: &BuiltinTable) -> (r: Result<
    (Expr, DollarRefsScope),
    AnalyzeError,
>)
    ensures
        match r {
            Ok((out, manifest)) => analyzed(tree@, table@) == Ok::<_, AnalyzeError>(
                (out@, manifest@),
            ),
            Err(x) => analyzed(tree@, table@) == Err::<(ExprView, ScopeView), _>(x),
        },
{
    let mut top = DollarRefsCtx::top_level();
    match top.fold_expr(tree, table) {
        Ok(out) => {
            let manifest = top.pop_dollar_scope(false);
            Ok((out, manifest))
        },
        Err(x) => Err(x),
    }
}

/// Analyses a piece of code inside code that is being analysed, in a scope
/// of its own. Returns the rewritten tree and the manifest of the scope; the
/// scope around it has taken over what is not local there either.
pub fn analyze_in(ctx: &mut DollarRefsCtx, tree: &Expr, table: &BuiltinTable) -> (r: Result<
    (Expr, DollarRefsScope),
    AnalyzeError,
>)
    requires
        ready(old(ctx)@),
    ensures
        match r {
            Ok((out, manifest)) => analyzed_in(old(ctx)@, tree@, table@) == Ok::<_, AnalyzeError>(
                (final(ctx)@, out@, manifest@),
            ),
            Err(x) => analyzed_in(old(ctx)@, tree@, table@) == Err::<
                (CtxView, ExprView, ScopeView),
                _,
            >(x),
        },
{
    let ghost c0 = ctx@;
    ctx.new_dollar_scope(false);
    match ctx.fold_expr(tree, table) {
        Ok(out) => {
            proof {
                lemma_scope_shape(c0, ctx@, false);
            }
            let manifest = ctx.pop_dollar_scope(false);
            Ok((out, manifest))
        },
        Err(x) => Err(x),
    }
}

} // verus!
