//! The analysis itself: the walk over a tree that rewrites references to
//! state cells and fills the manifests of the scopes.

use vstd::prelude::*;
use crate::analysis::{
    capture_result, expanded, fold_closure, fold_expr, fold_field, fold_in_place, fold_list,
    fold_macro, fold_method_call, fold_scoped, is_write_method, lemma_fold_list_error,
    lemma_scope_shape, macro_kind, parse_reference, path_span, ready, reference_of,
    replace_builtin, replace_reference, same_shape, AnalyzeError, Folded, FoldedList, MacroKind,
    KW_EXPANDED,
};
use crate::builtin::{facet_accessor_of, facet_variable_of, to_snake_case, BuiltinTable};
use crate::codegen::{expand_read, expand_write_method, ident_token};
use crate::ctx::{CtxView, DollarRefsCtx};
use crate::expr::{
    exprs_view, lemma_exprs_view, lemma_exprs_view_empty, push_expr, Expr, ExprView, Member,
};
use crate::names::{Ident, IdentView};
use crate::refs::{BuiltinInfo, DollarRef};
use crate::scope::DollarRefsScope;
use crate::symbol::{
    KW_CTX, KW_DOLLAR_STR, KW_FN_WIDGET, KW_MAP_WRITER, KW_PIPE, KW_RDL, KW_SPLIT_WRITER, KW_WATCH,
};
use crate::tokens::{
    lemma_stream_view, lemma_stream_view_empty, push_token, span_of_stream, stream_view, Span,
    TokenTree,
};

verus! {

/// Whether `r`, with the state `after` it, is what the analysis has to give.
pub open spec fn agrees(spec: Folded, r: Result<Expr, AnalyzeError>, after: CtxView) -> bool {
    match r {
        Ok(out) => spec == Ok::<(CtxView, ExprView), AnalyzeError>((after, out@)),
        Err(x) => spec == Err::<(CtxView, ExprView), AnalyzeError>(x),
    }
}

/// Whether the list `r`, with the state `after` it, is what the analysis
/// has to give.
pub open spec fn agrees_list(
    spec: FoldedList,
    r: Result<Vec<Expr>, AnalyzeError>,
    after: CtxView,
) -> bool {
    match r {
        Ok(out) => spec == Ok::<(CtxView, Seq<ExprView>), AnalyzeError>((after, exprs_view(out@))),
        Err(x) => spec == Err::<(CtxView, Seq<ExprView>), AnalyzeError>(x),
    }
}

/// Whether the replacement `r`, with the state `after` it, is what the
/// analysis has to give; without a replacement the state is as `before`.
pub open spec fn agrees_replaced(
    spec: Option<Folded>,
    r: Option<Result<Expr, AnalyzeError>>,
    before: CtxView,
    after: CtxView,
) -> bool {
    match r {
        Some(found) => spec is Some && agrees(spec->0, found, after),
        None => spec is None && after == before,
    }
}

fn name_is(name: &String, word: &str) -> (b: bool)
    ensures
        b == (name@ == word@),
{
    let w = String::from_str(word);
    *name == w
}

/// Which macro the path names.
pub fn classify_macro(path: &Ident) -> (kind: MacroKind)
    ensures
        kind == macro_kind(path@.name),
{
    if name_is(&path.name, KW_DOLLAR_STR) {
        MacroKind::Reference
    } else if name_is(&path.name, KW_WATCH) {
        MacroKind::Watch
    } else if name_is(&path.name, KW_PIPE) {
        MacroKind::Pipe
    } else if name_is(&path.name, KW_RDL) {
        MacroKind::Rdl
    } else if name_is(&path.name, KW_FN_WIDGET) {
        MacroKind::FnWidget
    } else if name_is(&path.name, KW_SPLIT_WRITER) {
        MacroKind::SplitWriter
    } else if name_is(&path.name, KW_MAP_WRITER) {
        MacroKind::MapWriter
    } else if name_is(&path.name, KW_CTX) {
        MacroKind::Ctx
    } else {
        MacroKind::Other
    }
}

/// Whether a call of the method takes the writer of a cell.
pub fn is_state_write_method(method: &Ident) -> (b: bool)
    ensures
        b == is_write_method(method@.name),
{
    name_is(&method.name, "write") || name_is(&method.name, "silent") || name_is(
        &method.name,
        "shallow",
    )
}

/// The cell that the tokens of a reference macro name.
pub fn parse_dollar_macro(tokens: &Vec<TokenTree>) -> (r: Option<Ident>)
    ensures
        match r {
            Some(id) => parse_reference(stream_view(tokens@)) == Some(id@),
            None => parse_reference(stream_view(tokens@)) is None,
        },
{
    proof {
        lemma_stream_view(tokens@);
    }
    if tokens.len() != 2 {
        return None;
    }
    match &tokens[0] {
        TokenTree::Punct { ch, .. } => {
            if *ch != '$' {
                return None;
            }
        },
        _ => {
            return None;
        },
    }
    match &tokens[1] {
        TokenTree::Ident { name, span } => Some(Ident { name: name.clone(), span: *span }),
        _ => None,
    }
}

/// The cell that `e` refers to, if `e` is a reference macro.
fn dollar_reference(e: &Expr) -> (r: Option<Result<Ident, AnalyzeError>>)
    ensures
        match r {
            Some(Ok(id)) => reference_of(e@) == Some(Ok::<_, AnalyzeError>(id@)),
            Some(Err(x)) => reference_of(e@) == Some(Err::<IdentView, _>(x)),
            None => reference_of(e@) is None,
        },
{
    match e {
        Expr::Macro { path, tokens, .. } => {
            match classify_macro(path) {
                MacroKind::Reference => {
                    match parse_dollar_macro(tokens) {
                        Some(id) => Some(Ok(id)),
                        None => Some(Err(AnalyzeError::MalformedReference { span: path.span })),
                    }
                },
                _ => None,
            }
        },
        _ => None,
    }
}

fn path_span_of(e: &Expr) -> (span: Span)
    ensures
        span == path_span(e@),
{
    match e {
        Expr::Macro { path, .. } => path.span,
        _ => Span::call_site(),
    }
}

/// A macro call that is marked as rewritten, with the code it stands for.
pub fn mark_macro_expanded(span: Span, tokens: Vec<TokenTree>) -> (e: Expr)
    ensures
        e@ == expanded(span, stream_view(tokens@)),
{
    proof {
        lemma_exprs_view_empty();
    }
    Expr::Macro { path: Ident::new(KW_EXPANDED, span), tokens, code: Vec::new() }
}

fn ident_stream(id: &Ident) -> (out: Vec<TokenTree>)
    ensures
        stream_view(out@) == seq![ident_token(id@)],
{
    let mut out: Vec<TokenTree> = Vec::new();
    proof {
        lemma_stream_view_empty();
    }
    push_token(&mut out, TokenTree::Ident { name: id.name.clone(), span: id.span });
    assert(stream_view(out@) =~= seq![ident_token(id@)]);
    out
}

/// The closure with its manifest, once the scope of the closure is closed.
fn capture_closure(scope: DollarRefsScope, closure: Expr) -> (e: Expr)
    requires
        closure@ is Closure,
    ensures
        e@ == capture_result(scope@, closure@),
{
    if scope.used_ctx() || !scope.is_empty() {
        if scope.used_ctx() {
            match closure {
                Expr::Closure { capture, typed, inputs, body } => {
                    let ghost old_body = (*body)@;
                    let ghost old_inputs = exprs_view(inputs@);
                    let wrapped = Expr::WithCtx { braced: typed, body };
                    assert(wrapped@ == ExprView::WithCtx { braced: typed, body: Box::new(old_body) });
                    let inner = Expr::Closure { capture, typed, inputs, body: Box::new(wrapped) };
                    assert(inner@ == ExprView::Closure {
                        capture,
                        typed,
                        inputs: old_inputs,
                        body: Box::new(wrapped@),
                    });
                    Expr::Captured { scope, closure: Box::new(inner) }
                },
                other => other,
            }
        } else {
            Expr::Captured { scope, closure: Box::new(closure) }
        }
    } else {
        closure
    }
}

impl DollarRefsCtx {
    /// Analyses `e` and returns the rewritten tree. The references met are
    /// recorded in the scopes that are open; every scope, frame and capture
    /// level that the analysis opens, it closes again.
    ///
    /// Fails on a malformed reference and on a derived value that refers to
    /// no cell; no tree is returned then.
    pub fn fold_expr(&mut self, e: &Expr, table: &BuiltinTable) -> (r: Result<Expr, AnalyzeError>)
        requires
            ready(old(self)@),
        ensures
            agrees(fold_expr(old(self)@, e@, table@), r, final(self)@),
            r is Ok ==> ready(final(self)@) && same_shape(old(self)@, final(self)@),
        decreases *e, 2int,
    {
        let ghost c0 = self@;
        match e {
            Expr::Syntax { parts } => {
                match self.fold_list(parts, table) {
                    Ok(done) => Ok(Expr::Syntax { parts: done }),
                    Err(x) => Err(x),
                }
            },
            Expr::Block { parts } => self.fold_block(e, table),
            Expr::Closure { capture, .. } => {
                if *capture {
                    self.new_dollar_scope(true);
                    match self.fold_expr_closure(e, table) {
                        Ok(closure) => {
                            proof {
                                lemma_scope_shape(c0, self@, true);
                            }
                            let scope = self.pop_dollar_scope(true);
                            Ok(capture_closure(scope, closure))
                        },
                        Err(x) => Err(x),
                    }
                } else {
                    self.fold_expr_closure(e, table)
                }
            },
            Expr::Local { .. } => self.fold_local(e, table),
            Expr::PatIdent { .. } => self.fold_pat_ident(e, table),
            Expr::ItemConst { .. } => self.fold_item_const(e, table),
            Expr::Field { .. } => self.fold_expr_field(e, table),
            Expr::MethodCall { .. } => self.fold_expr_method_call(e, table),
            Expr::Macro { .. } => self.fold_macro(e, table),
            Expr::Generated { .. } => Ok(e.duplicate()),
            Expr::Captured { .. } => Ok(e.duplicate()),
            Expr::WithCtx { .. } => Ok(e.duplicate()),
        }
    }

    /// Analyses the expressions of a list, one after the other.
    pub fn fold_list(&mut self, parts: &Vec<Expr>, table: &BuiltinTable) -> (r: Result<
        Vec<Expr>,
        AnalyzeError,
    >)
        requires
            ready(old(self)@),
        ensures
            agrees_list(fold_list(old(self)@, exprs_view(parts@), table@), r, final(self)@),
            r is Ok ==> ready(final(self)@) && same_shape(old(self)@, final(self)@),
        decreases *parts, 0int,
    {
        let ghost c0 = self@;
        let ghost pv = exprs_view(parts@);
        let mut out: Vec<Expr> = Vec::new();
        let mut i: usize = 0;
        proof {
            lemma_exprs_view(parts@);
            lemma_exprs_view_empty();
            assert(pv.take(0) =~= Seq::<ExprView>::empty());
        }
        #[verifier::loop_isolation(false)]
        while i < parts.len()
            invariant
                i <= parts.len(),
                ready(self@),
                same_shape(c0, self@),
                fold_list(c0, pv.take(i as int), table@) == Ok::<
                    (CtxView, Seq<ExprView>),
                    AnalyzeError,
                >((self@, exprs_view(out@))),
            decreases parts.len() - i,
        {
            proof {
                vstd::std_specs::vec::axiom_vec_index_decreases(*parts, i as int);
                assert(pv.take(i + 1).drop_last() =~= pv.take(i as int));
                assert(pv.take(i + 1).last() == parts@[i as int]@);
            }
            match self.fold_expr(&parts[i], table) {
                Ok(e) => {
                    push_expr(&mut out, e);
                },
                Err(x) => {
                    proof {
                        lemma_fold_list_error(c0, pv, i + 1, table@);
                    }
                    return Err(x);
                },
            }
            i += 1;
        }
        proof {
            assert(pv.take(parts.len() as int) =~= pv);
        }
        Ok(out)
    }

    /// Analyses a construct whose variables end with it.
    fn fold_block(&mut self, e: &Expr, table: &BuiltinTable) -> (r: Result<Expr, AnalyzeError>)
        requires
            ready(old(self)@),
            e@ is Block,
        ensures
            agrees(fold_expr(old(self)@, e@, table@), r, final(self)@),
            r is Ok ==> ready(final(self)@) && same_shape(old(self)@, final(self)@),
        decreases *e, 1int,
    {
        match e {
            Expr::Block { parts } => {
                self.push_code_stack();
                match self.fold_list(parts, table) {
                    Ok(done) => {
                        self.pop_code_stack();
                        Ok(Expr::Block { parts: done })
                    },
                    Err(x) => Err(x),
                }
            },
            _ => Ok(e.duplicate()),
        }
    }

    /// Analyses a closure: its parameters and its body, in a frame of their
    /// own.
    pub fn fold_expr_closure(&mut self, e: &Expr, table: &BuiltinTable) -> (r: Result<
        Expr,
        AnalyzeError,
    >)
        requires
            ready(old(self)@),
            e@ is Closure,
        ensures
            agrees(fold_closure(old(self)@, e@, table@), r, final(self)@),
            r is Ok ==> ready(final(self)@) && same_shape(old(self)@, final(self)@) && r->Ok_0@
                is Closure,
        decreases *e, 0int,
    {
        match e {
            Expr::Closure { capture, typed, inputs, body } => {
                self.push_code_stack();
                match self.fold_list(inputs, table) {
                    Ok(ins) => {
                        match self.fold_expr(body, table) {
                            Ok(b) => {
                                self.pop_code_stack();
                                Ok(
                                    Expr::Closure {
                                        capture: *capture,
                                        typed: *typed,
                                        inputs: ins,
                                        body: Box::new(b),
                                    },
                                )
                            },
                            Err(x) => Err(x),
                        }
                    },
                    Err(x) => Err(x),
                }
            },
            _ => Ok(e.duplicate()),
        }
    }

    /// Analyses a `let` statement: the initialiser first, then the pattern,
    /// so that the initialiser does not see what the pattern binds.
    fn fold_local(&mut self, e: &Expr, table: &BuiltinTable) -> (r: Result<Expr, AnalyzeError>)
        requires
            ready(old(self)@),
            e@ is Local,
        ensures
            agrees(fold_expr(old(self)@, e@, table@), r, final(self)@),
            r is Ok ==> ready(final(self)@) && same_shape(old(self)@, final(self)@),
        decreases *e, 1int,
    {
        match e {
            Expr::Local { pat, init } => {
                match init {
                    Some(i) => {
                        match self.fold_expr(i, table) {
                            Ok(i1) => {
                                match self.fold_expr(pat, table) {
                                    Ok(p1) => Ok(
                                        Expr::Local {
                                            pat: Box::new(p1),
                                            init: Some(Box::new(i1)),
                                        },
                                    ),
                                    Err(x) => Err(x),
                                }
                            },
                            Err(x) => Err(x),
                        }
                    },
                    None => {
                        match self.fold_expr(pat, table) {
                            Ok(p1) => Ok(Expr::Local { pat: Box::new(p1), init: None }),
                            Err(x) => Err(x),
                        }
                    },
                }
            },
            _ => Ok(e.duplicate()),
        }
    }

    /// Analyses an identifier that a pattern binds: it is a local variable
    /// from here on.
    fn fold_pat_ident(&mut self, e: &Expr, table: &BuiltinTable) -> (r: Result<Expr, AnalyzeError>)
        requires
            ready(old(self)@),
            e@ is PatIdent,
        ensures
            agrees(fold_expr(old(self)@, e@, table@), r, final(self)@),
            r is Ok ==> ready(final(self)@) && same_shape(old(self)@, final(self)@),
        decreases *e, 1int,
    {
        match e {
            Expr::PatIdent { ident, subpat } => {
                self.new_local_var(ident);
                match subpat {
                    Some(s) => {
                        match self.fold_expr(s, table) {
                            Ok(s1) => Ok(
                                Expr::PatIdent {
                                    ident: ident.duplicate(),
                                    subpat: Some(Box::new(s1)),
                                },
                            ),
                            Err(x) => Err(x),
                        }
                    },
                    None => Ok(e.duplicate()),
                }
            },
            _ => Ok(e.duplicate()),
        }
    }

    /// Analyses a constant declared among statements: its name is a local
    /// variable from here on.
    fn fold_item_const(&mut self, e: &Expr, table: &BuiltinTable) -> (r: Result<
        Expr,
        AnalyzeError,
    >)
        requires
            ready(old(self)@),
            e@ is ItemConst,
        ensures
            agrees(fold_expr(old(self)@, e@, table@), r, final(self)@),
            r is Ok ==> ready(final(self)@) && same_shape(old(self)@, final(self)@),
        decreases *e, 1int,
    {
        match e {
            Expr::ItemConst { ident, parts } => {
                self.new_local_var(ident);
                match self.fold_list(parts, table) {
                    Ok(done) => Ok(Expr::ItemConst { ident: ident.duplicate(), parts: done }),
                    Err(x) => Err(x),
                }
            },
            _ => Ok(e.duplicate()),
        }
    }

    /// Analyses a field access. An access to a member that belongs to a
    /// facet, on a reference to a cell, goes to the facet.
    pub fn fold_expr_field(&mut self, e: &Expr, table: &BuiltinTable) -> (r: Result<
        Expr,
        AnalyzeError,
    >)
        requires
            ready(old(self)@),
            e@ is Field,
        ensures
            agrees(fold_field(old(self)@, e@, table@), r, final(self)@),
            r is Ok ==> ready(final(self)@) && same_shape(old(self)@, final(self)@),
        decreases *e, 0int,
    {
        match e {
            Expr::Field { base, member } => {
                let replaced = match member {
                    Member::Named(m) => {
                        match table.field_facet(m.name.as_str()) {
                            Some(facet) => {
                                let snake = to_snake_case(facet.as_str());
                                self.replace_builtin_ident(base, snake.as_str(), table)
                            },
                            None => None,
                        }
                    },
                    Member::Unnamed(_) => None,
                };
                match replaced {
                    Some(Ok(b)) => Ok(Expr::Field { base: Box::new(b), member: member.duplicate() }),
                    Some(Err(x)) => Err(x),
                    None => {
                        match self.fold_expr(base, table) {
                            Ok(b) => Ok(
                                Expr::Field { base: Box::new(b), member: member.duplicate() },
                            ),
                            Err(x) => Err(x),
                        }
                    },
                }
            },
            _ => Ok(e.duplicate()),
        }
    }

    /// Analyses a method call. A method that belongs to a facet, called on a
    /// reference to a cell, goes to the facet; a write-family method called
    /// on a reference takes the writer of the cell.
    pub fn fold_expr_method_call(&mut self, e: &Expr, table: &BuiltinTable) -> (r: Result<
        Expr,
        AnalyzeError,
    >)
        requires
            ready(old(self)@),
            e@ is MethodCall,
        ensures
            agrees(fold_method_call(old(self)@, e@, table@), r, final(self)@),
            r is Ok ==> ready(final(self)@) && same_shape(old(self)@, final(self)@),
        decreases *e, 0int,
    {
        match e {
            Expr::MethodCall { receiver, method, args } => {
                // a method of a facet, called on a cell
                let replaced = match table.method_facet(method.name.as_str()) {
                    Some(facet) => {
                        let snake = to_snake_case(facet.as_str());
                        self.replace_builtin_ident(receiver, snake.as_str(), table)
                    },
                    None => None,
                };
                let head = match replaced {
                    Some(found) => found,
                    None => {
                        // a write on a cell
                        let written = if is_state_write_method(method) {
                            dollar_reference(receiver)
                        } else {
                            None
                        };
                        match written {
                            Some(Ok(name)) => {
                                let access = mark_macro_expanded(
                                    path_span_of(receiver),
                                    expand_write_method(ident_stream(&name)),
                                );
                                self.add_dollar_ref(
                                    DollarRef { name, builtin: None, write: true },
                                );
                                Ok(access)
                            },
                            Some(Err(x)) => Err(x),
                            None => self.fold_expr(receiver, table),
                        }
                    },
                };
                match head {
                    Ok(r) => {
                        match self.fold_list(args, table) {
                            Ok(done) => Ok(
                                Expr::MethodCall {
                                    receiver: Box::new(r),
                                    method: method.duplicate(),
                                    args: done,
                                },
                            ),
                            Err(x) => Err(x),
                        }
                    },
                    Err(x) => Err(x),
                }
            },
            _ => Ok(e.duplicate()),
        }
    }

    /// Analyses a macro call.
    pub fn fold_macro(&mut self, e: &Expr, table: &BuiltinTable) -> (r: Result<Expr, AnalyzeError>)
        requires
            ready(old(self)@),
            e@ is Macro,
        ensures
            agrees(fold_macro(old(self)@, e@, table@), r, final(self)@),
            r is Ok ==> ready(final(self)@) && same_shape(old(self)@, final(self)@),
        decreases *e, 1int,
    {
        match e {
            Expr::Macro { path, tokens, code } => {
                match classify_macro(path) {
                    MacroKind::Reference => {
                        match parse_dollar_macro(tokens) {
                            Some(name) => {
                                let access = mark_macro_expanded(
                                    path.span,
                                    expand_read(ident_stream(&name)),
                                );
                                self.add_dollar_ref(
                                    DollarRef { name, builtin: None, write: false },
                                );
                                Ok(access)
                            },
                            None => Err(AnalyzeError::MalformedReference { span: path.span }),
                        }
                    },
                    MacroKind::Watch => self.fold_scoped(e, true, table),
                    MacroKind::Pipe => {
                        self.mark_used_ctx();
                        self.fold_scoped(e, true, table)
                    },
                    MacroKind::FnWidget => self.fold_scoped(e, false, table),
                    MacroKind::Rdl => {
                        self.mark_used_ctx();
                        self.fold_in_place(e, table)
                    },
                    MacroKind::SplitWriter => self.fold_in_place(e, table),
                    MacroKind::MapWriter => self.fold_in_place(e, table),
                    MacroKind::Ctx => {
                        self.mark_used_ctx();
                        Ok(e.duplicate())
                    },
                    MacroKind::Other => Ok(e.duplicate()),
                }
            },
            _ => Ok(e.duplicate()),
        }
    }

    /// Analyses a macro call whose code is a scope of its own. With
    /// `derived` the scope has a capture level and must refer to a cell.
    fn fold_scoped(&mut self, e: &Expr, derived: bool, table: &BuiltinTable) -> (r: Result<
        Expr,
        AnalyzeError,
    >)
        requires
            ready(old(self)@),
            e@ is Macro,
        ensures
            agrees(fold_scoped(old(self)@, e@, derived, table@), r, final(self)@),
            r is Ok ==> ready(final(self)@) && same_shape(old(self)@, final(self)@),
        decreases *e, 0int,
    {
        let ghost c0 = self@;
        match e {
            Expr::Macro { path, tokens, code } => {
                self.new_dollar_scope(derived);
                match self.fold_list(code, table) {
                    Ok(done) => {
                        proof {
                            lemma_scope_shape(c0, self@, derived);
                        }
                        let scope = self.pop_dollar_scope(derived);
                        if derived && scope.is_empty() {
                            Err(
                                AnalyzeError::NotSubscribeAnything {
                                    span: span_of_stream(tokens),
                                },
                            )
                        } else {
                            Ok(Expr::Generated { origin: path.duplicate(), scope, code: done })
                        }
                    },
                    Err(x) => Err(x),
                }
            },
            _ => Ok(e.duplicate()),
        }
    }

    /// Analyses a macro call whose code belongs to the scope around it.
    fn fold_in_place(&mut self, e: &Expr, table: &BuiltinTable) -> (r: Result<Expr, AnalyzeError>)
        requires
            ready(old(self)@),
            e@ is Macro,
        ensures
            agrees(fold_in_place(old(self)@, e@, table@), r, final(self)@),
            r is Ok ==> ready(final(self)@) && same_shape(old(self)@, final(self)@),
        decreases *e, 0int,
    {
        match e {
            Expr::Macro { path, tokens, code } => {
                match self.fold_list(code, table) {
                    Ok(done) => Ok(
                        Expr::Generated {
                            origin: path.duplicate(),
                            scope: DollarRefsScope::new(),
                            code: done,
                        },
                    ),
                    Err(x) => Err(x),
                }
            },
            _ => Ok(e.duplicate()),
        }
    }

    /// Redirects `caller`, the object of an access to the facet
    /// `builtin_member`, to the facet alone, if `caller` is a reference to a
    /// cell or a write-family call on one. A closure that uses one facet of
    /// an object then captures that facet, not the object.
    ///
    /// Returns the rewritten `caller`, and `None` where `caller` is no such
    /// reference: nothing has happened then.
    pub fn replace_builtin_ident(
        &mut self,
        caller: &Expr,
        builtin_member: &str,
        table: &BuiltinTable,
    ) -> (r: Option<Result<Expr, AnalyzeError>>)
        requires
            ready(old(self)@),
        ensures
            agrees_replaced(
                replace_builtin(old(self)@, caller@, builtin_member@, table@),
                r,
                old(self)@,
                final(self)@,
            ),
            r is Some && r->0 is Ok ==> ready(final(self)@) && same_shape(
                old(self)@,
                final(self)@,
            ),
        decreases *caller, 1int,
    {
        match caller {
            Expr::MethodCall { receiver, method, args } => {
                if is_state_write_method(method) {
                    match self.replace_reference(receiver, builtin_member, true) {
                        Some(Ok(access)) => {
                            match self.fold_list(args, table) {
                                Ok(done) => Some(
                                    Ok(
                                        Expr::MethodCall {
                                            receiver: Box::new(access),
                                            method: method.duplicate(),
                                            args: done,
                                        },
                                    ),
                                ),
                                Err(x) => Some(Err(x)),
                            }
                        },
                        Some(Err(x)) => Some(Err(x)),
                        None => None,
                    }
                } else {
                    self.replace_reference(caller, builtin_member, false)
                }
            },
            _ => self.replace_reference(caller, builtin_member, false),
        }
    }

    /// Redirects the reference `target` to the facet `facet` of its cell.
    fn replace_reference(&mut self, target: &Expr, facet: &str, write: bool) -> (r: Option<
        Result<Expr, AnalyzeError>,
    >)
        requires
            ready(old(self)@),
        ensures
            agrees_replaced(
                replace_reference(old(self)@, target@, facet@, write),
                r,
                old(self)@,
                final(self)@,
            ),
            r is Some && r->0 is Ok ==> ready(final(self)@) && same_shape(
                old(self)@,
                final(self)@,
            ),
    {
        match dollar_reference(target) {
            None => None,
            Some(Err(x)) => Some(Err(x)),
            Some(Ok(host)) => {
                let name = facet_variable_of(&host, facet);
                let member = facet_accessor_of(&host, facet);
                let dollar_ref = DollarRef {
                    name,
                    builtin: Some(BuiltinInfo { host, member }),
                    write,
                };
                let state = self.builtin_host_tokens(&dollar_ref);
                let tokens = if write {
                    expand_write_method(state)
                } else {
                    expand_read(state)
                };
                let access = mark_macro_expanded(path_span_of(target), tokens);
                self.add_dollar_ref(dollar_ref);
                Some(Ok(access))
            },
        }
    }
}

} // verus!
