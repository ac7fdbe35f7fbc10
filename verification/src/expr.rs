//! The shape of the code that the analysis walks: as much of an expression
//! tree as decides which variables are in sight and which cells are used.

use vstd::prelude::*;
use crate::names::{Ident, IdentView};
use crate::scope::{DollarRefsScope, ScopeView};
use crate::tokens::{duplicate_stream, stream_view, TokenTree, TokenView};

verus! {

/// The member that a field access names.
#[derive(Debug, PartialEq, Eq)]
pub enum Member {
    Named(Ident),
    Unnamed(u32),
}

/// The mathematical value of a [`Member`].
pub enum MemberView {
    Named(IdentView),
    Unnamed(u32),
}

impl View for Member {
    type V = MemberView;

    open spec fn view(&self) -> MemberView {
        match self {
            Member::Named(id) => MemberView::Named(id@),
            Member::Unnamed(i) => MemberView::Unnamed(*i),
        }
    }
}

impl Member {
    pub fn duplicate(&self) -> (m: Member)
        ensures
            m@ == self@,
    {
        match self {
            Member::Named(id) => Member::Named(id.duplicate()),
            Member::Unnamed(i) => Member::Unnamed(*i),
        }
    }
}

/// A piece of code, as far as the analysis tells pieces apart.
///
/// The parts of a node stand in the order in which they are analysed.
#[derive(Debug, PartialEq, Eq)]
pub enum Expr {
    /// Any syntax that neither declares a variable nor opens a block.
    Syntax { parts: Vec<Expr> },
    /// A construct whose variables end with it: a block, a loop, a
    /// conditional, an arm of a match.
    Block { parts: Vec<Expr> },
    /// A closure. With `capture` it takes what it uses by value; with
    /// `typed` it declares the type of its result.
    Closure { capture: bool, typed: bool, inputs: Vec<Expr>, body: Box<Expr> },
    /// A `let` statement. The initialiser is evaluated before the pattern
    /// binds.
    Local { pat: Box<Expr>, init: Option<Box<Expr>> },
    /// An identifier that a pattern binds.
    PatIdent { ident: Ident, subpat: Option<Box<Expr>> },
    /// A constant declared among statements.
    ItemConst { ident: Ident, parts: Vec<Expr> },
    /// `base.member`
    Field { base: Box<Expr>, member: Member },
    /// `receiver.method(args)`
    MethodCall { receiver: Box<Expr>, method: Ident, args: Vec<Expr> },
    /// A macro call: its path, its tokens and, where the macro is one of
    /// those that hold code, that code.
    Macro { path: Ident, tokens: Vec<TokenTree>, code: Vec<Expr> },
    /// What became of a macro call that holds code: the analysed code and
    /// the manifest of the cells it depends on.
    Generated { origin: Ident, scope: DollarRefsScope, code: Vec<Expr> },
    /// A capturing closure together with the manifest of what it captures.
    Captured { scope: DollarRefsScope, closure: Box<Expr> },
    /// The body of a closure, run with the build context at hand; in braces
    /// of its own where the closure declares the type of its result.
    WithCtx { braced: bool, body: Box<Expr> },
}

/// The mathematical value of an [`Expr`].
pub enum ExprView {
    Syntax { parts: Seq<ExprView> },
    Block { parts: Seq<ExprView> },
    Closure { capture: bool, typed: bool, inputs: Seq<ExprView>, body: Box<ExprView> },
    Local { pat: Box<ExprView>, init: Option<Box<ExprView>> },
    PatIdent { ident: IdentView, subpat: Option<Box<ExprView>> },
    ItemConst { ident: IdentView, parts: Seq<ExprView> },
    Field { base: Box<ExprView>, member: MemberView },
    MethodCall { receiver: Box<ExprView>, method: IdentView, args: Seq<ExprView> },
    Macro { path: IdentView, tokens: Seq<TokenView>, code: Seq<ExprView> },
    Generated { origin: IdentView, scope: ScopeView, code: Seq<ExprView> },
    Captured { scope: ScopeView, closure: Box<ExprView> },
    WithCtx { braced: bool, body: Box<ExprView> },
}

impl View for Expr {
    type V = ExprView;

    open spec fn view(&self) -> ExprView
        decreases self,
    {
        match self {
            Expr::Syntax { parts } => ExprView::Syntax { parts: exprs_view(parts@) },
            Expr::Block { parts } => ExprView::Block { parts: exprs_view(parts@) },
            Expr::Closure { capture, typed, inputs, body } => ExprView::Closure {
                capture: *capture,
                typed: *typed,
                inputs: exprs_view(inputs@),
                body: Box::new((**body).view()),
            },
            Expr::Local { pat, init } => ExprView::Local {
                pat: Box::new((**pat).view()),
                init: match init {
                    Some(e) => Some(Box::new((**e).view())),
                    None => None,
                },
            },
            Expr::PatIdent { ident, subpat } => ExprView::PatIdent {
                ident: ident@,
                subpat: match subpat {
                    Some(e) => Some(Box::new((**e).view())),
                    None => None,
                },
            },
            Expr::ItemConst { ident, parts } => ExprView::ItemConst {
                ident: ident@,
                parts: exprs_view(parts@),
            },
            Expr::Field { base, member } => ExprView::Field {
                base: Box::new((**base).view()),
                member: member@,
            },
            Expr::MethodCall { receiver, method, args } => ExprView::MethodCall {
                receiver: Box::new((**receiver).view()),
                method: method@,
                args: exprs_view(args@),
            },
            Expr::Macro { path, tokens, code } => ExprView::Macro {
                path: path@,
                tokens: stream_view(tokens@),
                code: exprs_view(code@),
            },
            Expr::Generated { origin, scope, code } => ExprView::Generated {
                origin: origin@,
                scope: scope@,
                code: exprs_view(code@),
            },
            Expr::Captured { scope, closure } => ExprView::Captured {
                scope: scope@,
                closure: Box::new((**closure).view()),
            },
            Expr::WithCtx { braced, body } => ExprView::WithCtx {
                braced: *braced,
                body: Box::new((**body).view()),
            },
        }
    }
}

/// The values of a sequence of expressions, one for one.
pub open spec fn exprs_view(s: Seq<Expr>) -> Seq<ExprView>
    decreases s,
{
    if s.len() == 0 {
        Seq::empty()
    } else {
        exprs_view(s.drop_last()).push(s.last()@)
    }
}

pub proof fn lemma_exprs_view(s: Seq<Expr>)
    ensures
        exprs_view(s).len() == s.len(),
        forall|i: int| 0 <= i < s.len() ==> #[trigger] exprs_view(s)[i] == s[i]@,
    decreases s.len(),
{
    if s.len() > 0 {
        lemma_exprs_view(s.drop_last());
        assert(exprs_view(s) == exprs_view(s.drop_last()).push(s.last()@));
    } else {
        assert(exprs_view(s) == Seq::<ExprView>::empty());
    }
}

pub proof fn lemma_exprs_view_push(s: Seq<Expr>, e: Expr)
    ensures
        exprs_view(s.push(e)) == exprs_view(s).push(e@),
{
    assert(s.push(e).drop_last() =~= s);
    assert(exprs_view(s.push(e)) == exprs_view(s.push(e).drop_last()).push(s.push(e).last()@));
}

pub proof fn lemma_exprs_view_empty()
    ensures
        exprs_view(Seq::<Expr>::empty()) == Seq::<ExprView>::empty(),
{
    assert(exprs_view(Seq::<Expr>::empty()) == Seq::<ExprView>::empty());
}

/// Appends one expression to a list.
pub fn push_expr(out: &mut Vec<Expr>, e: Expr)
    ensures
        exprs_view(final(out)@) == exprs_view(old(out)@).push(e@),
        final(out)@ == old(out)@.push(e),
{
    proof {
        lemma_exprs_view_push(out@, e);
    }
    out.push(e);
}

impl Expr {
    /// A copy of this tree with the same value.
    pub fn duplicate(&self) -> (e: Expr)
        ensures
            e@ == self@,
        decreases *self,
    {
        match self {
            Expr::Syntax { parts } => Expr::Syntax { parts: duplicate_exprs(parts) },
            Expr::Block { parts } => Expr::Block { parts: duplicate_exprs(parts) },
            Expr::Closure { capture, typed, inputs, body } => Expr::Closure {
                capture: *capture,
                typed: *typed,
                inputs: duplicate_exprs(inputs),
                body: Box::new((**body).duplicate()),
            },
            Expr::Local { pat, init } => Expr::Local {
                pat: Box::new((**pat).duplicate()),
                init: match init {
                    Some(e) => Some(Box::new((**e).duplicate())),
                    None => None,
                },
            },
            Expr::PatIdent { ident, subpat } => Expr::PatIdent {
                ident: ident.duplicate(),
                subpat: match subpat {
                    Some(e) => Some(Box::new((**e).duplicate())),
                    None => None,
                },
            },
            Expr::ItemConst { ident, parts } => Expr::ItemConst {
                ident: ident.duplicate(),
                parts: duplicate_exprs(parts),
            },
            Expr::Field { base, member } => Expr::Field {
                base: Box::new((**base).duplicate()),
                member: member.duplicate(),
            },
            Expr::MethodCall { receiver, method, args } => Expr::MethodCall {
                receiver: Box::new((**receiver).duplicate()),
                method: method.duplicate(),
                args: duplicate_exprs(args),
            },
            Expr::Macro { path, tokens, code } => Expr::Macro {
                path: path.duplicate(),
                tokens: duplicate_stream(tokens),
                code: duplicate_exprs(code),
            },
            Expr::Generated { origin, scope, code } => Expr::Generated {
                origin: origin.duplicate(),
                scope: scope.duplicate(),
                code: duplicate_exprs(code),
            },
            Expr::Captured { scope, closure } => Expr::Captured {
                scope: scope.duplicate(),
                closure: Box::new((**closure).duplicate()),
            },
            Expr::WithCtx { braced, body } => Expr::WithCtx {
                braced: *braced,
                body: Box::new((**body).duplicate()),
            },
        }
    }
}

/// A copy of a list of trees with the same values.
pub fn duplicate_exprs(list: &Vec<Expr>) -> (copy: Vec<Expr>)
    ensures
        exprs_view(copy@) == exprs_view(list@),
    decreases *list,
{
    let mut copy: Vec<Expr> = Vec::new();
    let mut i: usize = 0;
    #[verifier::loop_isolation(false)]
    while i < list.len()
        invariant
            i <= list.len(),
            copy@.len() == i,
            forall|j: int| 0 <= j < i ==> copy@[j]@ == list@[j]@,
        decreases list.len() - i,
    {
        proof {
            vstd::std_specs::vec::axiom_vec_index_decreases(*list, i as int);
        }
        let e = list[i].duplicate();
        copy.push(e);
        i += 1;
    }
    proof {
        lemma_exprs_view(copy@);
        lemma_exprs_view(list@);
        assert(exprs_view(copy@) =~= exprs_view(list@));
    }
    copy
}

} // verus!
