//! Identifiers and the order of their names.

use vstd::prelude::*;
use crate::tokens::Span;

verus! {

/// A name as written in the analysed source, with the place it stands at.
///
/// Two identifiers are the same variable when their names are equal: the
/// span only says where a diagnostic should point.
#[derive(Debug, PartialEq, Eq)]
pub struct Ident {
    pub name: String,
    pub span: Span,
}

/// The mathematical value of an [`Ident`].
pub struct IdentView {
    pub name: Seq<char>,
    pub span: Span,
}

impl View for Ident {
    type V = IdentView;

    open spec fn view(&self) -> IdentView {
        IdentView { name: self.name@, span: self.span }
    }
}

impl Ident {
    pub fn new(name: &str, span: Span) -> (id: Ident)
        ensures
            id@ == (IdentView { name: name@, span }),
    {
        Ident { name: String::from_str(name), span }
    }

    /// A copy with the same name and span.
    pub fn duplicate(&self) -> (id: Ident)
        ensures
            id@ == self@,
    {
        Ident { name: self.name.clone(), span: self.span }
    }

    /// Whether both stand for the same variable.
    pub fn same_name(&self, other: &Ident) -> (b: bool)
        ensures
            b == (self@.name == other@.name),
    {
        self.name == other.name
    }
}

/// The position of a character in the code charts.
pub open spec fn code_point(c: char) -> int {
    c as int
}

/// Whether `a` comes strictly before `b` when names are compared character
/// by character, by code point, a proper prefix coming first.
pub open spec fn name_lt(a: Seq<char>, b: Seq<char>) -> bool
    decreases a.len(),
{
    if b.len() == 0 {
        false
    } else if a.len() == 0 {
        true
    } else if a[0] != b[0] {
        code_point(a[0]) < code_point(b[0])
    } else {
        name_lt(a.skip(1), b.skip(1))
    }
}

/// No name comes before itself.
pub proof fn lemma_name_lt_irreflexive(a: Seq<char>)
    ensures
        !name_lt(a, a),
    decreases a.len(),
{
    if a.len() > 0 {
        lemma_name_lt_irreflexive(a.skip(1));
    }
}

/// Of two different names, one comes before the other.
pub proof fn lemma_name_lt_total(a: Seq<char>, b: Seq<char>)
    ensures
        a == b || name_lt(a, b) || name_lt(b, a),
    decreases a.len(),
{
    if a.len() == 0 || b.len() == 0 {
        if a.len() == 0 && b.len() == 0 {
            assert(a =~= b);
        }
    } else if a[0] == b[0] {
        lemma_name_lt_total(a.skip(1), b.skip(1));
        if a.skip(1) == b.skip(1) {
            assert(a =~= seq![a[0]] + a.skip(1));
            assert(b =~= seq![b[0]] + b.skip(1));
        }
    }
}

/// The order of names has no cycles of length two.
pub proof fn lemma_name_lt_asymmetric(a: Seq<char>, b: Seq<char>)
    requires
        name_lt(a, b),
    ensures
        !name_lt(b, a),
    decreases a.len(),
{
    if a.len() > 0 && b.len() > 0 && a[0] == b[0] {
        lemma_name_lt_asymmetric(a.skip(1), b.skip(1));
    }
}

/// The order of names is transitive.
pub proof fn lemma_name_lt_transitive(a: Seq<char>, b: Seq<char>, c: Seq<char>)
    requires
        name_lt(a, b),
        name_lt(b, c),
    ensures
        name_lt(a, c),
    decreases a.len(),
{
    if a.len() > 0 && b.len() > 0 && c.len() > 0 && a[0] == b[0] && b[0] == c[0] {
        lemma_name_lt_transitive(a.skip(1), b.skip(1), c.skip(1));
    }
}

/// Compares two names with the order of `str`.
///
/// Trusted: wraps `<` of `str`, which orders strings lexicographically by
/// their bytes; as the standard library documents, that is the order of
/// their characters' code points.
#[verifier::external_body]
pub(crate) fn str_lt(a: &str, b: &str) -> (r: bool)
    ensures
        r == name_lt(a@, b@),
{
    a < b
}

/// Appends `tail` to a copy of `head`.
pub fn concat(head: &str, tail: &str) -> (s: String)
    ensures
        s@ == head@ + tail@,
{
    let mut s = String::from_str(head);
    s.append(tail);
    s
}

} // verus!
