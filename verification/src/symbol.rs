//! The symbol pass: `@` and `$` in a token stream become ordinary macro calls,
//! so that what follows can be parsed as plain expressions.

use vstd::prelude::*;
use crate::tokens::{
    lemma_stream_view, lemma_stream_view_empty, push_token, stream_view, Delimiter, Span, Spacing,
    TokenTree, TokenView,
};

verus! {

/// The path of the macro that stands for a reference to a state cell.
pub const KW_DOLLAR_STR: &'static str = "_dollar_ಠ_ಠ";

/// The path of the macro that asks for the ambient build context.
pub const KW_CTX: &'static str = "ctx";

/// The path of the macro that declares an object.
pub const KW_RDL: &'static str = "rdl";

/// The path of the macro that builds a derived value.
pub const KW_PIPE: &'static str = "pipe";

/// The path of the macro that builds a stream of recomputed values.
pub const KW_WATCH: &'static str = "watch";

/// The path of the macro that builds a deferred widget.
pub const KW_FN_WIDGET: &'static str = "fn_widget";

/// The path of the macro that splits a writer off a part of a cell.
pub const KW_SPLIT_WRITER: &'static str = "split_writer";

/// The path of the macro that maps a writer to a part of a cell.
pub const KW_MAP_WRITER: &'static str = "map_writer";

/// What is wrong with a use of `@` or `$`.
#[derive(Clone, Copy, Debug, PartialEq, Eq, Structural)]
pub enum SyntaxErrorKind {
    /// `@` is not followed by a type with a body, a `$` variable with a body,
    /// or a bracketed expression.
    Declare,
    /// `$` is not followed by an identifier.
    Reference,
}

/// A malformed use of `@` or `$`, with the place to report it at.
#[derive(Clone, Copy, Debug, PartialEq, Eq, Structural)]
pub struct SyntaxError {
    pub kind: SyntaxErrorKind,
    pub span: Span,
}

pub open spec fn declare_error(span: Span) -> SyntaxError {
    SyntaxError { kind: SyntaxErrorKind::Declare, span }
}

pub open spec fn reference_error(span: Span) -> SyntaxError {
    SyntaxError { kind: SyntaxErrorKind::Reference, span }
}

/// The `rdl` identifier and the `!` that open a declaration written with `@`.
pub open spec fn declare_head(at: Span) -> Seq<TokenView> {
    seq![
        TokenView::Ident { name: KW_RDL@, span: at },
        TokenView::Punct { ch: '!', spacing: Spacing::Alone, span: Span::spec_call_site() },
    ]
}

/// The macro call that `$name` becomes: the reference macro applied to the
/// two tokens themselves, reported at the name.
pub open spec fn reference_call(dollar: TokenView, name: TokenView) -> Seq<TokenView> {
    seq![
        TokenView::Ident { name: KW_DOLLAR_STR@, span: dollar.span() },
        TokenView::Punct { ch: '!', spacing: Spacing::Alone, span: Span::spec_call_site() },
        TokenView::Group {
            delimiter: Delimiter::Parenthesis,
            stream: seq![dollar, name],
            span: name.span(),
        },
    ]
}

/// Whether the tokens end in an identifier.
pub open spec fn ends_with_ident(out: Seq<TokenView>) -> bool {
    out.len() > 0 && out.last() is Ident
}

/// Whether the tokens end in the head of a macro call, an identifier and `!`.
pub open spec fn ends_with_macro_head(out: Seq<TokenView>) -> bool {
    out.len() >= 2 && out[out.len() - 2] is Ident && out.last().is_punct('!')
}

/// What follows the `@` at `i`: the body of the declaration and how many
/// tokens it takes beyond the first, or the error to report.
pub open spec fn declare_body(input: Seq<TokenView>, i: int) -> Result<(TokenView, nat), SyntaxError>
    recommends
        0 <= i < input.len(),
{
    let at = input[i].span();
    if i + 1 >= input.len() {
        Err(declare_error(at))
    } else {
        let first = input[i + 1];
        if first is Ident {
            if i + 2 < input.len() && input[i + 2] is Group {
                Ok(
                    (
                        TokenView::Group {
                            delimiter: Delimiter::Brace,
                            stream: seq![first, input[i + 2]],
                            span: Span::spec_call_site(),
                        },
                        1nat,
                    ),
                )
            } else {
                Err(declare_error(at.spec_join(first.span())))
            }
        } else if first.is_punct('$') {
            if i + 2 < input.len() && input[i + 2] is Ident {
                if i + 3 < input.len() && input[i + 3] is Group {
                    Ok(
                        (
                            TokenView::Group {
                                delimiter: Delimiter::Brace,
                                stream: seq![first, input[i + 2], input[i + 3]],
                                span: Span::spec_call_site(),
                            },
                            2nat,
                        ),
                    )
                } else {
                    Err(
                        declare_error(
                            at.spec_join(first.span()).spec_join(input[i + 2].span()),
                        ),
                    )
                }
            } else {
                Err(reference_error(first.span()))
            }
        } else if first is Group {
            Ok((first, 0nat))
        } else {
            Err(declare_error(at.spec_join(first.span())))
        }
    }
}

/// The result of the pass on `input` from index `i` on, when `out` is what the
/// tokens before `i` have become.
///
/// Tokens are taken from left to right. An `@` that does not follow an
/// identifier opens a declaration; a `$` opens a reference; a group is
/// rewritten inside unless it is the body of a macro call; everything else is
/// kept. The first malformed symbol ends the pass with its error.
pub open spec fn expand_from(input: Seq<TokenView>, i: int, out: Seq<TokenView>) -> Result<
    Seq<TokenView>,
    SyntaxError,
>
    decreases input, input.len() - i,
{
    if i < 0 || i >= input.len() {
        Ok(out)
    } else {
        let t = input[i];
        if t.is_punct('@') && !ends_with_ident(out) {
            match declare_body(input, i) {
                Ok((body, extra)) => expand_from(
                    input,
                    i + 2 + extra,
                    (out + declare_head(t.span())).push(body),
                ),
                Err(e) => Err(e),
            }
        } else if t.is_punct('$') {
            if i + 1 < input.len() {
                if input[i + 1] is Ident {
                    expand_from(input, i + 2, out + reference_call(t, input[i + 1]))
                } else {
                    Err(reference_error(input[i + 1].span()))
                }
            } else {
                Err(reference_error(t.span()))
            }
        } else if t is Group && !ends_with_macro_head(out) {
            match expand_from(t->stream, 0, Seq::empty()) {
                Ok(inner) => expand_from(
                    input,
                    i + 1,
                    out.push(
                        TokenView::Group {
                            delimiter: t->delimiter,
                            stream: inner,
                            span: t->Group_span,
                        },
                    ),
                ),
                Err(e) => Err(e),
            }
        } else {
            expand_from(input, i + 1, out.push(t))
        }
    }
}

/// The token stream that the symbol pass makes of `input`, or its first error.
pub open spec fn expand_symbols(input: Seq<TokenView>) -> Result<Seq<TokenView>, SyntaxError> {
    expand_from(input, 0, Seq::empty())
}

impl SyntaxError {
    /// The text of the diagnostic.
    pub fn message(&self) -> (text: &'static str)
        ensures
            text@ == match self.kind {
                SyntaxErrorKind::Declare => DECLARE_MESSAGE@,
                SyntaxErrorKind::Reference => REFERENCE_MESSAGE@,
            },
    {
        match self.kind {
            SyntaxErrorKind::Declare => DECLARE_MESSAGE,
            SyntaxErrorKind::Reference => REFERENCE_MESSAGE,
        }
    }
}

/// The diagnostic for a malformed `@`.
pub const DECLARE_MESSAGE: &'static str =
    "Syntax Error: use `@` to declare object, must be: \n 1. `@ XXX { ... }`, declare a new `XXX` type object;\n 2. `@ $parent { ... }`, declare a variable as parent;\n 3. `@ { ... } `, declare an object by an expression.";

/// The diagnostic for a malformed `$`.
pub const REFERENCE_MESSAGE: &'static str = "Syntax error: expected an identifier after `$`";

fn is_punct(t: &TokenTree, c: char) -> (b: bool)
    ensures
        b == t@.is_punct(c),
{
    match t {
        TokenTree::Punct { ch, .. } => *ch == c,
        _ => false,
    }
}

fn is_ident(t: &TokenTree) -> (b: bool)
    ensures
        b == (t@ is Ident),
{
    match t {
        TokenTree::Ident { .. } => true,
        _ => false,
    }
}

fn is_group(t: &TokenTree) -> (b: bool)
    ensures
        b == (t@ is Group),
{
    match t {
        TokenTree::Group { .. } => true,
        _ => false,
    }
}

fn last_is_ident(out: &Vec<TokenTree>) -> (b: bool)
    ensures
        b == ends_with_ident(stream_view(out@)),
{
    proof {
        lemma_stream_view(out@);
    }
    out.len() > 0 && is_ident(&out[out.len() - 1])
}

/// Whether the tokens end in an identifier and `!`: what comes next is then
/// the body of a macro call, whose own syntax is left alone.
fn in_macro(out: &Vec<TokenTree>) -> (b: bool)
    ensures
        b == ends_with_macro_head(stream_view(out@)),
{
    proof {
        lemma_stream_view(out@);
    }
    out.len() >= 2 && is_ident(&out[out.len() - 2]) && is_punct(&out[out.len() - 1], '!')
}

/// A brace group around copies of `count` tokens of `input` from `from` on.
fn brace_group(input: &Vec<TokenTree>, from: usize, count: usize) -> (g: TokenTree)
    requires
        from + count <= input.len(),
    ensures
        g@ == (TokenView::Group {
            delimiter: Delimiter::Brace,
            stream: stream_view(input@).subrange(from as int, from + count),
            span: Span::spec_call_site(),
        }),
{
    let mut stream: Vec<TokenTree> = Vec::new();
    let mut k: usize = 0;
    while k < count
        invariant
            k <= count,
            from + count <= input.len(),
            stream@.len() == k,
            forall|j: int| 0 <= j < k ==> stream@[j]@ == input@[from + j]@,
        decreases count - k,
    {
        stream.push(input[from + k].duplicate());
        k += 1;
    }
    proof {
        lemma_stream_view(stream@);
        lemma_stream_view(input@);
        assert(stream_view(stream@) =~= stream_view(input@).subrange(from as int, from + count));
    }
    TokenTree::group(Delimiter::Brace, stream, Span::call_site())
}

/// The body of the declaration that the `@` at `i` opens.
fn take_declare_body(input: &Vec<TokenTree>, i: usize) -> (r: Result<(TokenTree, usize), SyntaxError>)
    requires
        i < input.len(),
    ensures
        match r {
            Ok((body, extra)) => declare_body(stream_view(input@), i as int) == Ok::<
                (TokenView, nat),
                SyntaxError,
            >((body@, extra as nat)) && i + 2 + extra <= input.len(),
            Err(e) => declare_body(stream_view(input@), i as int) == Err::<
                (TokenView, nat),
                SyntaxError,
            >(e),
        },
{
    proof {
        lemma_stream_view(input@);
    }
    let ghost iv = stream_view(input@);
    let at = input[i].span();
    if i + 1 >= input.len() {
        return Err(SyntaxError { kind: SyntaxErrorKind::Declare, span: at });
    }
    let first = &input[i + 1];
    if is_ident(first) {
        if i + 2 < input.len() && is_group(&input[i + 2]) {
            let body = brace_group(input, i + 1, 2);
            assert(iv.subrange(i + 1, i + 3) =~= seq![iv[i + 1], iv[i + 2]]);
            Ok((body, 1))
        } else {
            Err(SyntaxError { kind: SyntaxErrorKind::Declare, span: at.join(first.span()) })
        }
    } else if is_punct(first, '$') {
        if i + 2 < input.len() && is_ident(&input[i + 2]) {
            if i + 3 < input.len() && is_group(&input[i + 3]) {
                let body = brace_group(input, i + 1, 3);
                assert(iv.subrange(i + 1, i + 4) =~= seq![iv[i + 1], iv[i + 2], iv[i + 3]]);
                Ok((body, 2))
            } else {
                Err(
                    SyntaxError {
                        kind: SyntaxErrorKind::Declare,
                        span: at.join(first.span()).join(input[i + 2].span()),
                    },
                )
            }
        } else {
            Err(SyntaxError { kind: SyntaxErrorKind::Reference, span: first.span() })
        }
    } else if is_group(first) {
        Ok((first.duplicate(), 0))
    } else {
        Err(SyntaxError { kind: SyntaxErrorKind::Declare, span: at.join(first.span()) })
    }
}

/// Turns the symbols `@` and `$` into calls of the declaration macro and of
/// the reference macro, so that the tokens conform to the host syntax.
///
/// Returns the rewritten tokens, or the first malformed symbol: nothing is
/// returned of a stream that holds one.
pub fn symbol_to_macro(input: &Vec<TokenTree>) -> (r: Result<Vec<TokenTree>, SyntaxError>)
    ensures
        match r {
            Ok(out) => expand_symbols(stream_view(input@)) == Ok::<Seq<TokenView>, SyntaxError>(
                stream_view(out@),
            ),
            Err(e) => expand_symbols(stream_view(input@)) == Err::<Seq<TokenView>, SyntaxError>(e),
        },
    decreases *input,
{
    let ghost iv = stream_view(input@);
    let mut out: Vec<TokenTree> = Vec::new();
    let mut i: usize = 0;
    proof {
        lemma_stream_view(input@);
        lemma_stream_view_empty();
    }
    #[verifier::loop_isolation(false)]
    while i < input.len()
        invariant
            i <= input.len(),
            expand_from(iv, i as int, stream_view(out@)) == expand_symbols(iv),
        decreases input.len() - i,
    {
        let ghost ov = stream_view(out@);
        let t = &input[i];
        if is_punct(t, '@') && !last_is_ident(&out) {
            match take_declare_body(input, i) {
                Ok((body, extra)) => {
                    push_token(&mut out, TokenTree::ident(KW_RDL, t.span()));
                    push_token(&mut out, TokenTree::punct('!', Spacing::Alone, Span::call_site()));
                    push_token(&mut out, body);
                    assert(stream_view(out@) =~= (ov + declare_head(t@.span())).push(body@));
                    i = i + 2 + extra;
                },
                Err(e) => {
                    return Err(e);
                },
            }
        } else if is_punct(t, '$') {
            if i + 1 < input.len() {
                let name = &input[i + 1];
                if is_ident(name) {
                    let mut pair: Vec<TokenTree> = Vec::new();
                    pair.push(t.duplicate());
                    pair.push(name.duplicate());
                    proof {
                        lemma_stream_view(pair@);
                        assert(stream_view(pair@) =~= seq![t@, name@]);
                    }
                    push_token(&mut out, TokenTree::ident(KW_DOLLAR_STR, t.span()));
                    push_token(&mut out, TokenTree::punct('!', Spacing::Alone, Span::call_site()));
                    push_token(
                        &mut out,
                        TokenTree::group(Delimiter::Parenthesis, pair, name.span()),
                    );
                    assert(stream_view(out@) =~= ov + reference_call(t@, name@));
                    i = i + 2;
                } else {
                    return Err(SyntaxError { kind: SyntaxErrorKind::Reference, span: name.span() });
                }
            } else {
                return Err(SyntaxError { kind: SyntaxErrorKind::Reference, span: t.span() });
            }
        } else {
            match t {
                TokenTree::Group { delimiter, stream, span } => {
                    if !in_macro(&out) {
                        proof {
                            vstd::std_specs::vec::axiom_vec_index_decreases(*input, i as int);
                        }
                        match symbol_to_macro(stream) {
                            Ok(inner) => {
                                push_token(&mut out, TokenTree::group(*delimiter, inner, *span));
                            },
                            Err(e) => {
                                return Err(e);
                            },
                        }
                    } else {
                        push_token(&mut out, t.duplicate());
                    }
                },
                _ => {
                    push_token(&mut out, t.duplicate());
                },
            }
            i = i + 1;
        }
    }
    Ok(out)
}

} // verus!
