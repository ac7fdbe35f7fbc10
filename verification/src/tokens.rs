//! A plain model of token trees: what the symbol pass and the code generators
//! read and write, held as ordinary values.

use vstd::prelude::*;

verus! {

/// A region of the analysed source, as a half-open range of offsets.
#[derive(Clone, Copy, Debug, PartialEq, Eq, Structural)]
pub struct Span {
    pub start: usize,
    pub end: usize,
}

impl Span {
    /// The span of tokens that the pass makes up itself.
    pub open spec fn spec_call_site() -> Span {
        Span { start: 0, end: 0 }
    }

    /// The smallest span that covers `self` and `other`.
    pub open spec fn spec_join(self, other: Span) -> Span {
        Span {
            start: if self.start <= other.start { self.start } else { other.start },
            end: if self.end >= other.end { self.end } else { other.end },
        }
    }

    #[verifier::when_used_as_spec(spec_call_site)]
    pub fn call_site() -> (s: Span)
        ensures
            s == Span::spec_call_site(),
    {
        Span { start: 0, end: 0 }
    }

    pub fn new(start: usize, end: usize) -> (s: Span)
        ensures
            s == (Span { start, end }),
    {
        Span { start, end }
    }

    #[verifier::when_used_as_spec(spec_join)]
    pub fn join(self, other: Span) -> (s: Span)
        ensures
            s == self.spec_join(other),
    {
        Span {
            start: if self.start <= other.start { self.start } else { other.start },
            end: if self.end >= other.end { self.end } else { other.end },
        }
    }
}

/// The brackets around a group of tokens.
#[derive(Clone, Copy, Debug, PartialEq, Eq, Structural)]
pub enum Delimiter {
    Parenthesis,
    Brace,
    Bracket,
    /// No visible brackets.
    Invisible,
}

/// Whether a punctuation character is followed at once by another one.
#[derive(Clone, Copy, Debug, PartialEq, Eq, Structural)]
pub enum Spacing {
    Alone,
    Joint,
}

/// One token, or a bracketed group of tokens.
#[derive(Debug, PartialEq, Eq)]
pub enum TokenTree {
    Group { delimiter: Delimiter, stream: Vec<TokenTree>, span: Span },
    Ident { name: String, span: Span },
    Punct { ch: char, spacing: Spacing, span: Span },
    Literal { text: String, span: Span },
}

/// The mathematical value of a [`TokenTree`].
pub enum TokenView {
    Group { delimiter: Delimiter, stream: Seq<TokenView>, span: Span },
    Ident { name: Seq<char>, span: Span },
    Punct { ch: char, spacing: Spacing, span: Span },
    Literal { text: Seq<char>, span: Span },
}

impl TokenView {
    pub open spec fn span(self) -> Span {
        match self {
            TokenView::Group { span, .. } => span,
            TokenView::Ident { span, .. } => span,
            TokenView::Punct { span, .. } => span,
            TokenView::Literal { span, .. } => span,
        }
    }

    pub open spec fn is_punct(self, c: char) -> bool {
        self matches TokenView::Punct { ch, .. } && ch == c
    }
}

impl View for TokenTree {
    type V = TokenView;

    open spec fn view(&self) -> TokenView
        decreases self,
    {
        match self {
            TokenTree::Group { delimiter, stream, span } => TokenView::Group {
                delimiter: *delimiter,
                stream: stream_view(stream@),
                span: *span,
            },
            TokenTree::Ident { name, span } => TokenView::Ident { name: name@, span: *span },
            TokenTree::Punct { ch, spacing, span } => TokenView::Punct {
                ch: *ch,
                spacing: *spacing,
                span: *span,
            },
            TokenTree::Literal { text, span } => TokenView::Literal { text: text@, span: *span },
        }
    }
}

/// The values of a sequence of token trees, one for one.
pub open spec fn stream_view(s: Seq<TokenTree>) -> Seq<TokenView>
    decreases s,
{
    if s.len() == 0 {
        Seq::empty()
    } else {
        stream_view(s.drop_last()).push(s.last()@)
    }
}

pub proof fn lemma_stream_view(s: Seq<TokenTree>)
    ensures
        stream_view(s).len() == s.len(),
        forall|i: int| 0 <= i < s.len() ==> #[trigger] stream_view(s)[i] == s[i]@,
    decreases s.len(),
{
    if s.len() > 0 {
        lemma_stream_view(s.drop_last());
        assert(stream_view(s) == stream_view(s.drop_last()).push(s.last()@));
    } else {
        assert(stream_view(s) == Seq::<TokenView>::empty());
    }
}

pub proof fn lemma_stream_view_push(s: Seq<TokenTree>, t: TokenTree)
    ensures
        stream_view(s.push(t)) == stream_view(s).push(t@),
{
    assert(s.push(t).drop_last() =~= s);
    assert(stream_view(s.push(t)) == stream_view(s.push(t).drop_last()).push(s.push(t).last()@));
}

pub proof fn lemma_stream_view_empty()
    ensures
        stream_view(Seq::<TokenTree>::empty()) == Seq::<TokenView>::empty(),
{
    assert(stream_view(Seq::<TokenTree>::empty()) == Seq::<TokenView>::empty());
}

pub proof fn lemma_stream_view_add(a: Seq<TokenTree>, b: Seq<TokenTree>)
    ensures
        stream_view(a + b) == stream_view(a) + stream_view(b),
{
    lemma_stream_view(a);
    lemma_stream_view(b);
    lemma_stream_view(a + b);
    assert(stream_view(a + b) =~= stream_view(a) + stream_view(b));
}

/// The span of a run of tokens: from its first token to its last.
pub open spec fn stream_span(s: Seq<TokenView>) -> Span {
    if s.len() == 0 {
        Span::spec_call_site()
    } else {
        s[0].span().spec_join(s.last().span())
    }
}

/// Appends one token to a stream.
pub fn push_token(out: &mut Vec<TokenTree>, t: TokenTree)
    ensures
        stream_view(final(out)@) == stream_view(old(out)@).push(t@),
        final(out)@ == old(out)@.push(t),
{
    proof {
        lemma_stream_view_push(out@, t);
    }
    out.push(t);
}

/// Appends a stream to a stream.
pub fn append_tokens(out: &mut Vec<TokenTree>, more: Vec<TokenTree>)
    ensures
        stream_view(final(out)@) == stream_view(old(out)@) + stream_view(more@),
{
    let mut more = more;
    proof {
        lemma_stream_view_add(out@, more@);
    }
    out.append(&mut more);
}

/// The span from the first token of a stream to its last.
pub fn span_of_stream(s: &Vec<TokenTree>) -> (span: Span)
    ensures
        span == stream_span(stream_view(s@)),
{
    proof {
        lemma_stream_view(s@);
    }
    if s.len() == 0 {
        Span::call_site()
    } else {
        s[0].span().join(s[s.len() - 1].span())
    }
}

impl TokenTree {
    pub fn ident(name: &str, span: Span) -> (t: TokenTree)
        ensures
            t@ == (TokenView::Ident { name: name@, span }),
    {
        TokenTree::Ident { name: String::from_str(name), span }
    }

    pub fn punct(ch: char, spacing: Spacing, span: Span) -> (t: TokenTree)
        ensures
            t@ == (TokenView::Punct { ch, spacing, span }),
    {
        TokenTree::Punct { ch, spacing, span }
    }

    pub fn literal(text: &str, span: Span) -> (t: TokenTree)
        ensures
            t@ == (TokenView::Literal { text: text@, span }),
    {
        TokenTree::Literal { text: String::from_str(text), span }
    }

    pub fn group(delimiter: Delimiter, stream: Vec<TokenTree>, span: Span) -> (t: TokenTree)
        ensures
            t@ == (TokenView::Group { delimiter, stream: stream_view(stream@), span }),
    {
        TokenTree::Group { delimiter, stream, span }
    }

    /// The source region of this token.
    pub fn span(&self) -> (s: Span)
        ensures
            s == self@.span(),
    {
        match self {
            TokenTree::Group { span, .. } => *span,
            TokenTree::Ident { span, .. } => *span,
            TokenTree::Punct { span, .. } => *span,
            TokenTree::Literal { span, .. } => *span,
        }
    }

    /// A copy of this token tree with the same value.
    pub fn duplicate(&self) -> (t: TokenTree)
        ensures
            t@ == self@,
        decreases *self,
    {
        match self {
            TokenTree::Group { delimiter, stream, span } => {
                let copy = duplicate_stream(stream);
                TokenTree::Group { delimiter: *delimiter, stream: copy, span: *span }
            },
            TokenTree::Ident { name, span } => TokenTree::Ident { name: name.clone(), span: *span },
            TokenTree::Punct { ch, spacing, span } => TokenTree::Punct {
                ch: *ch,
                spacing: *spacing,
                span: *span,
            },
            TokenTree::Literal { text, span } => TokenTree::Literal {
                text: text.clone(),
                span: *span,
            },
        }
    }
}

/// A copy of a token stream with the same value.
pub fn duplicate_stream(stream: &Vec<TokenTree>) -> (copy: Vec<TokenTree>)
    ensures
        stream_view(copy@) == stream_view(stream@),
    decreases *stream,
{
    let mut copy: Vec<TokenTree> = Vec::new();
    let mut i: usize = 0;
    #[verifier::loop_isolation(false)]
    while i < stream.len()
        invariant
            i <= stream.len(),
            copy@.len() == i,
            forall|j: int| 0 <= j < i ==> copy@[j]@ == stream@[j]@,
        decreases stream.len() - i,
    {
        proof {
            vstd::std_specs::vec::axiom_vec_index_decreases(*stream, i as int);
        }
        let t = stream[i].duplicate();
        copy.push(t);
        i += 1;
    }
    proof {
        lemma_stream_view(copy@);
        lemma_stream_view(stream@);
        assert(stream_view(copy@) =~= stream_view(stream@));
    }
    copy
}

} // verus!
