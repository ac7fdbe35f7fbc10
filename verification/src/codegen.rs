//! The code that the analysis writes: how a cell is read, how a facet is
//! reached, the statements that hand a closure its cells, and the stream on
//! which a derived value listens.

use vstd::prelude::*;
use crate::ctx::{CtxView, DollarRefsCtx};
use crate::names::{Ident, IdentView};
use crate::refs::{DollarRef, DollarRefView};
use crate::scope::DollarRefsScope;
use crate::analysis::AnalyzeError;
use crate::symbol::{
    SyntaxError, SyntaxErrorKind, DECLARE_MESSAGE, KW_CTX, REFERENCE_MESSAGE,
};
use crate::tokens::{
    append_tokens, lemma_stream_view_empty, push_token, span_of_stream, stream_span, stream_view,
    Delimiter, Span, Spacing, TokenTree, TokenView,
};

verus! {

/// The text of the diagnostic for a derivation that depends on no cell.
pub const NOT_SUBSCRIBE_MESSAGE: &'static str =
    "expression not subscribe anything, it must contain at least one $";

pub open spec fn word(name: Seq<char>, span: Span) -> TokenView {
    TokenView::Ident { name, span }
}

pub open spec fn ident_token(id: IdentView) -> TokenView {
    TokenView::Ident { name: id.name, span: id.span }
}

pub open spec fn mark(ch: char, span: Span) -> TokenView {
    TokenView::Punct { ch, spacing: Spacing::Alone, span }
}

pub open spec fn joint(ch: char, span: Span) -> TokenView {
    TokenView::Punct { ch, spacing: Spacing::Joint, span }
}

pub open spec fn parens(inner: Seq<TokenView>, span: Span) -> TokenView {
    TokenView::Group { delimiter: Delimiter::Parenthesis, stream: inner, span }
}

/// `.method()`
pub open spec fn method_call(method: Seq<char>, span: Span) -> Seq<TokenView> {
    seq![mark('.', span), word(method, span), parens(Seq::empty(), span)]
}

/// `ctx!()`
pub open spec fn ctx_call(span: Span) -> Seq<TokenView> {
    seq![word(KW_CTX@, span), mark('!', span), parens(Seq::empty(), span)]
}

/// How a cell is read: `state.read()`.
pub open spec fn read_access(state: Seq<TokenView>) -> Seq<TokenView> {
    state + method_call("read"@, stream_span(state))
}

/// How the facet of a composite object is reached: `host.member(ctx!())`.
pub open spec fn facet_access(host: IdentView, member: IdentView) -> Seq<TokenView> {
    seq![
        ident_token(host),
        mark('.', host.span),
        ident_token(member),
        parens(ctx_call(host.span), host.span),
    ]
}

/// What stands for the facet `r` in code analysed in the state `c`. Inside a
/// capturing closure that captures the host, the facet is a variable of its
/// own by then; elsewhere it is reached through the host.
pub open spec fn builtin_host(c: CtxView, r: DollarRefView) -> Seq<TokenView>
    recommends
        r.builtin is Some,
{
    if !c.is_local(r.host().name) && c.heads.len() > 1 {
        seq![ident_token(r.name)]
    } else {
        facet_access(r.builtin->0.host, r.builtin->0.member)
    }
}

/// The statement that hands a closure the cell of `r`:
/// `let name = source.clone_reader();`, with `clone_writer` for a reference
/// that is written through, the source being the variable itself or the
/// facet of its host.
pub open spec fn capture_statement(r: DollarRefView) -> Seq<TokenView> {
    let span = r.name.span;
    let source = match r.builtin {
        Some(b) => facet_access(b.host, b.member),
        None => seq![ident_token(r.name)],
    };
    let cloner = if r.write {
        "clone_writer"@
    } else {
        "clone_reader"@
    };
    seq![word("let"@, span), ident_token(r.name), mark('=', span)] + source + method_call(
        cloner,
        span,
    ) + seq![mark(';', span)]
}

/// The statements for all references of a manifest, in its order.
pub open spec fn capture_statements(refs: Seq<DollarRefView>) -> Seq<TokenView>
    decreases refs.len(),
{
    if refs.len() == 0 {
        Seq::empty()
    } else {
        capture_statements(refs.drop_last()) + capture_statement(refs.last())
    }
}

/// `name.modifies()`, the stream of modifications of one cell.
pub open spec fn modifies_call(r: DollarRefView, span: Span) -> Seq<TokenView> {
    seq![ident_token(r.name)] + method_call("modifies"@, span)
}

/// The streams of all cells of a manifest, separated by commas.
pub open spec fn modifies_list(refs: Seq<DollarRefView>) -> Seq<TokenView>
    decreases refs.len(),
{
    if refs.len() == 0 {
        Seq::empty()
    } else if refs.len() == 1 {
        modifies_call(refs[0], Span::spec_call_site())
    } else {
        modifies_list(refs.drop_last()) + seq![mark(',', Span::spec_call_site())] + modifies_call(
            refs.last(),
            Span::spec_call_site(),
        )
    }
}

/// The stream on which a computation over the cells of a manifest listens:
/// nothing for no cell, the modifications of the one cell, or the merge of
/// the modifications of all cells,
/// `observable::from_iter([a.modifies(), b.modifies()]).merge_all(usize::MAX)`.
pub open spec fn upstream(refs: Seq<DollarRefView>) -> Seq<TokenView> {
    let cs = Span::spec_call_site();
    if refs.len() == 0 {
        Seq::empty()
    } else if refs.len() == 1 {
        modifies_call(refs[0], refs[0].name.span)
    } else {
        seq![
            word("observable"@, cs),
            joint(':', cs),
            mark(':', cs),
            word("from_iter"@, cs),
            parens(
                seq![
                    TokenView::Group {
                        delimiter: Delimiter::Bracket,
                        stream: modifies_list(refs),
                        span: cs,
                    },
                ],
                cs,
            ),
            mark('.', cs),
            word("merge_all"@, cs),
            parens(seq![word("usize"@, cs), joint(':', cs), mark(':', cs), word("MAX"@, cs)], cs),
        ]
    }
}

/// `let _ctx_handle = ctx!().handle();`
pub open spec fn handle_statement(span: Span) -> Seq<TokenView> {
    seq![word("let"@, span), word("_ctx_handle"@, span), mark('=', span)] + ctx_call(span)
        + method_call("handle"@, span) + seq![mark(';', span)]
}

/// `compile_error!("message")`
pub open spec fn build_failure(message: Seq<char>, span: Span) -> Seq<TokenView> {
    seq![
        word("compile_error"@, span),
        mark('!', span),
        parens(seq![TokenView::Literal { text: message, span }], span),
    ]
}

/// The code that reports a malformed symbol.
pub open spec fn syntax_failure(error: SyntaxError) -> Seq<TokenView> {
    build_failure(
        match error.kind {
            SyntaxErrorKind::Declare => DECLARE_MESSAGE@,
            SyntaxErrorKind::Reference => REFERENCE_MESSAGE@,
        },
        error.span,
    )
}

/// The code that reports why a piece of code cannot be analysed.
pub open spec fn analyze_failure(error: AnalyzeError) -> Seq<TokenView> {
    match error {
        AnalyzeError::MalformedReference { span } => build_failure(REFERENCE_MESSAGE@, span),
        AnalyzeError::NotSubscribeAnything { span } => build_failure(NOT_SUBSCRIBE_MESSAGE@, span),
    }
}

fn push_word(out: &mut Vec<TokenTree>, name: &str, span: Span)
    ensures
        stream_view(final(out)@) == stream_view(old(out)@).push(word(name@, span)),
{
    push_token(out, TokenTree::ident(name, span));
}

fn push_ident(out: &mut Vec<TokenTree>, id: &Ident)
    ensures
        stream_view(final(out)@) == stream_view(old(out)@).push(ident_token(id@)),
{
    push_token(out, TokenTree::Ident { name: id.name.clone(), span: id.span });
}

fn push_mark(out: &mut Vec<TokenTree>, ch: char, span: Span)
    ensures
        stream_view(final(out)@) == stream_view(old(out)@).push(mark(ch, span)),
{
    push_token(out, TokenTree::punct(ch, Spacing::Alone, span));
}

fn push_joint(out: &mut Vec<TokenTree>, ch: char, span: Span)
    ensures
        stream_view(final(out)@) == stream_view(old(out)@).push(joint(ch, span)),
{
    push_token(out, TokenTree::punct(ch, Spacing::Joint, span));
}

fn push_parens(out: &mut Vec<TokenTree>, inner: Vec<TokenTree>, span: Span)
    ensures
        stream_view(final(out)@) == stream_view(old(out)@).push(
            parens(stream_view(inner@), span),
        ),
{
    push_token(out, TokenTree::group(Delimiter::Parenthesis, inner, span));
}

fn push_method_call(out: &mut Vec<TokenTree>, method: &str, span: Span)
    ensures
        stream_view(final(out)@) == stream_view(old(out)@) + method_call(method@, span),
{
    push_mark(out, '.', span);
    push_word(out, method, span);
    proof {
        lemma_stream_view_empty();
    }
    push_parens(out, Vec::new(), span);
    assert(stream_view(out@) =~= stream_view(old(out)@) + method_call(method@, span));
}

fn ctx_call_tokens(span: Span) -> (out: Vec<TokenTree>)
    ensures
        stream_view(out@) == ctx_call(span),
{
    let mut out: Vec<TokenTree> = Vec::new();
    proof {
        lemma_stream_view_empty();
    }
    push_word(&mut out, KW_CTX, span);
    push_mark(&mut out, '!', span);
    push_parens(&mut out, Vec::new(), span);
    assert(stream_view(out@) =~= ctx_call(span));
    out
}

fn push_facet_access(out: &mut Vec<TokenTree>, host: &Ident, member: &Ident)
    ensures
        stream_view(final(out)@) == stream_view(old(out)@) + facet_access(host@, member@),
{
    push_ident(out, host);
    push_mark(out, '.', host.span);
    push_ident(out, member);
    push_parens(out, ctx_call_tokens(host.span), host.span);
    assert(stream_view(out@) =~= stream_view(old(out)@) + facet_access(host@, member@));
}

/// The code that reads the cell which the tokens `state` stand for.
pub fn expand_read(state: Vec<TokenTree>) -> (out: Vec<TokenTree>)
    ensures
        stream_view(out@) == read_access(stream_view(state@)),
{
    let span = span_of_stream(&state);
    let mut out = state;
    push_method_call(&mut out, "read", span);
    out
}

/// The code that a write-family call is made on: the cell itself, since such
/// a call takes its writer.
pub fn expand_write_method(host: Vec<TokenTree>) -> (out: Vec<TokenTree>)
    ensures
        stream_view(out@) == stream_view(host@),
{
    host
}

/// The diagnostic for a derivation that depends on no cell, as code that
/// fails the build at `span`.
pub fn not_subscribe_anything(span: Span) -> (out: Vec<TokenTree>)
    ensures
        stream_view(out@) == build_failure(NOT_SUBSCRIBE_MESSAGE@, span),
{
    build_failure_tokens(NOT_SUBSCRIBE_MESSAGE, span)
}

impl SyntaxError {
    /// Code that fails the build where the symbol is malformed, with the
    /// diagnostic of the error.
    pub fn to_tokens(&self) -> (out: Vec<TokenTree>)
        ensures
            stream_view(out@) == syntax_failure(*self),
    {
        build_failure_tokens(self.message(), self.span)
    }
}

impl AnalyzeError {
    /// Code that fails the build where the analysis has failed, with the
    /// diagnostic of the error.
    pub fn to_tokens(&self) -> (out: Vec<TokenTree>)
        ensures
            stream_view(out@) == analyze_failure(*self),
    {
        match self {
            AnalyzeError::MalformedReference { span } => build_failure_tokens(
                REFERENCE_MESSAGE,
                *span,
            ),
            AnalyzeError::NotSubscribeAnything { span } => not_subscribe_anything(*span),
        }
    }
}

/// Code that fails the build at `span` with `message`.
pub fn build_failure_tokens(message: &str, span: Span) -> (out: Vec<TokenTree>)
    ensures
        stream_view(out@) == build_failure(message@, span),
{
    let mut inner: Vec<TokenTree> = Vec::new();
    let mut out: Vec<TokenTree> = Vec::new();
    proof {
        lemma_stream_view_empty();
    }
    push_token(&mut inner, TokenTree::literal(message, span));
    push_word(&mut out, "compile_error", span);
    push_mark(&mut out, '!', span);
    push_parens(&mut out, inner, span);
    assert(stream_view(out@) =~= build_failure(message@, span));
    out
}

/// The statement that binds the handle through which a closure reaches the
/// build context later on.
pub fn ctx_handle_tokens(span: Span) -> (out: Vec<TokenTree>)
    ensures
        stream_view(out@) == handle_statement(span),
{
    let mut out: Vec<TokenTree> = Vec::new();
    proof {
        lemma_stream_view_empty();
    }
    push_word(&mut out, "let", span);
    push_word(&mut out, "_ctx_handle", span);
    push_mark(&mut out, '=', span);
    append_tokens(&mut out, ctx_call_tokens(span));
    push_method_call(&mut out, "handle", span);
    push_mark(&mut out, ';', span);
    assert(stream_view(out@) =~= handle_statement(span));
    out
}

fn push_capture_statement(out: &mut Vec<TokenTree>, r: &DollarRef)
    ensures
        stream_view(final(out)@) == stream_view(old(out)@) + capture_statement(r@),
{
    let span = r.name.span;
    push_word(out, "let", span);
    push_ident(out, &r.name);
    push_mark(out, '=', span);
    match &r.builtin {
        Some(b) => {
            push_facet_access(out, &b.host, &b.member);
        },
        None => {
            push_ident(out, &r.name);
        },
    }
    if r.write {
        push_method_call(out, "clone_writer", span);
    } else {
        push_method_call(out, "clone_reader", span);
    }
    push_mark(out, ';', span);
    assert(stream_view(out@) =~= stream_view(old(out)@) + capture_statement(r@));
}

fn push_modifies_call(out: &mut Vec<TokenTree>, r: &DollarRef, span: Span)
    ensures
        stream_view(final(out)@) == stream_view(old(out)@) + modifies_call(r@, span),
{
    push_ident(out, &r.name);
    push_method_call(out, "modifies", span);
    assert(stream_view(out@) =~= stream_view(old(out)@) + modifies_call(r@, span));
}

impl DollarRefsScope {
    /// The statements that hand a closure its cells, one for each reference
    /// of the manifest, in its order.
    pub fn to_tokens(&self) -> (out: Vec<TokenTree>)
        ensures
            stream_view(out@) == capture_statements(self@.refs),
    {
        let mut out: Vec<TokenTree> = Vec::new();
        proof {
            lemma_stream_view_empty();
        }
        let n = self.len();
        let mut i: usize = 0;
        while i < n
            invariant
                i <= n,
                n == self@.refs.len(),
                stream_view(out@) == capture_statements(self@.refs.take(i as int)),
            decreases n - i,
        {
            proof {
                assert(self@.refs.take(i + 1).drop_last() =~= self@.refs.take(i as int));
            }
            push_capture_statement(&mut out, self.get(i));
            i += 1;
        }
        assert(self@.refs.take(n as int) =~= self@.refs);
        out
    }

    /// The stream on which a computation over the cells of the manifest
    /// listens: one notification for each notification of any of its cells.
    pub fn upstream_tokens(&self) -> (out: Vec<TokenTree>)
        ensures
            stream_view(out@) == upstream(self@.refs),
    {
        let cs = Span::call_site();
        let mut out: Vec<TokenTree> = Vec::new();
        proof {
            lemma_stream_view_empty();
        }
        let n = self.len();
        if n == 0 {
            out
        } else if n == 1 {
            let r = self.get(0);
            push_modifies_call(&mut out, r, r.name.span);
            assert(stream_view(out@) =~= upstream(self@.refs));
            out
        } else {
            let mut list: Vec<TokenTree> = Vec::new();
            push_modifies_call(&mut list, self.get(0), cs);
            assert(stream_view(list@) =~= modifies_list(self@.refs.take(1))) by {
                assert(self@.refs.take(1)[0] == self@.refs[0]);
            }
            let mut i: usize = 1;
            while i < n
                invariant
                    1 <= i <= n,
                    n == self@.refs.len(),
                    cs == Span::spec_call_site(),
                    stream_view(list@) == modifies_list(self@.refs.take(i as int)),
                decreases n - i,
            {
                proof {
                    assert(self@.refs.take(i + 1).drop_last() =~= self@.refs.take(i as int));
                }
                let ghost before = stream_view(list@);
                push_mark(&mut list, ',', cs);
                push_modifies_call(&mut list, self.get(i), cs);
                assert(stream_view(list@) =~= before + seq![mark(',', cs)] + modifies_call(
                    self@.refs[i as int],
                    cs,
                ));
                i += 1;
            }
            assert(self@.refs.take(n as int) =~= self@.refs);
            let mut arg: Vec<TokenTree> = Vec::new();
            push_token(&mut arg, TokenTree::group(Delimiter::Bracket, list, cs));
            let mut limit: Vec<TokenTree> = Vec::new();
            push_word(&mut limit, "usize", cs);
            push_joint(&mut limit, ':', cs);
            push_mark(&mut limit, ':', cs);
            push_word(&mut limit, "MAX", cs);
            assert(stream_view(arg@) =~= seq![
                TokenView::Group {
                    delimiter: Delimiter::Bracket,
                    stream: modifies_list(self@.refs),
                    span: cs,
                },
            ]);
            assert(stream_view(limit@) =~= seq![
                word("usize"@, cs),
                joint(':', cs),
                mark(':', cs),
                word("MAX"@, cs),
            ]);
            push_word(&mut out, "observable", cs);
            push_joint(&mut out, ':', cs);
            push_mark(&mut out, ':', cs);
            push_word(&mut out, "from_iter", cs);
            push_parens(&mut out, arg, cs);
            push_mark(&mut out, '.', cs);
            push_word(&mut out, "merge_all", cs);
            push_parens(&mut out, limit, cs);
            assert(stream_view(out@) =~= upstream(self@.refs));
            out
        }
    }
}

impl DollarRefsCtx {
    /// What stands for the facet `dollar_ref` in the code being analysed.
    pub fn builtin_host_tokens(&self, dollar_ref: &DollarRef) -> (out: Vec<TokenTree>)
        requires
            self@.wf(),
            dollar_ref@.builtin is Some,
        ensures
            stream_view(out@) == builtin_host(self@, dollar_ref@),
    {
        let mut out: Vec<TokenTree> = Vec::new();
        proof {
            lemma_stream_view_empty();
        }
        match &dollar_ref.builtin {
            Some(b) => {
                // Inside a capturing closure the facet was split off when the
                // closure was entered: the captured variable is used as it is.
                if !self.is_local_var(&b.host) && self.capture_depth() > 1 {
                    push_ident(&mut out, &dollar_ref.name);
                    assert(stream_view(out@) =~= builtin_host(self@, dollar_ref@));
                } else {
                    push_facet_access(&mut out, &b.host, &b.member);
                    assert(stream_view(out@) =~= builtin_host(self@, dollar_ref@));
                }
            },
            None => {},
        }
        out
    }
}

} // verus!
