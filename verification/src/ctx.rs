//! The state of the analysis while it walks a piece of code: which scopes
//! are open, which variables are local, and where each capture level begins.

use vstd::prelude::*;
use crate::names::Ident;
use crate::refs::{lemma_finalize_empty, DollarRef, DollarRefView};
use crate::scope::{DollarRefsScope, ScopeView};
use crate::small::{head_stack_items, scope_stack_items, HeadStack, ScopeStack};

verus! {

/// The scopes, capture levels and local variables of an analysis.
///
/// A scope collects the references to state cells that the code in it
/// makes. A frame holds the variables declared in one block. A capture level
/// begins where a capturing closure begins: variables in frames below it are
/// outside the closure and must be captured, those in frames from it upwards
/// are local.
#[derive(Debug)]
pub struct DollarRefsCtx {
    scopes: ScopeStack,
    /// For every capture level, the index of its first frame.
    capture_level_heads: HeadStack,
    variable_stacks: Vec<Vec<String>>,
}

/// The mathematical value of a [`DollarRefsCtx`].
pub struct CtxView {
    /// The open scopes, the innermost last.
    pub scopes: Seq<ScopeView>,
    /// For every open capture level, the index of its first frame.
    pub heads: Seq<nat>,
    /// The names declared in each open frame, the innermost frame last.
    pub stacks: Seq<Seq<Seq<char>>>,
}

/// The names that a vector of frames holds.
pub open spec fn frames_view(frames: Seq<Vec<String>>) -> Seq<Seq<Seq<char>>> {
    Seq::new(frames.len(), |i: int| Seq::new(frames[i]@.len(), |j: int| frames[i]@[j]@))
}

/// The indices that a stack of capture levels holds, as numbers.
pub open spec fn heads_view(heads: Seq<usize>) -> Seq<nat> {
    Seq::new(heads.len(), |i: int| heads[i] as nat)
}

/// The references of `refs` whose host is not local in `c`, in their order.
pub open spec fn escaping(refs: Seq<DollarRefView>, c: CtxView) -> Seq<DollarRefView>
    decreases refs.len(),
{
    if refs.len() == 0 {
        refs
    } else {
        let rest = escaping(refs.drop_last(), c);
        if c.is_local(refs.last().host().name) {
            rest
        } else {
            rest.push(refs.last())
        }
    }
}

/// The references `refs` as a scope around a capturing scope takes them
/// over: as ordinary variables, without their facets, since the scope
/// around captures the whole of what the inner one took a part of. A scope
/// without a capture level hands its references on as they are.
pub open spec fn handed_on(refs: Seq<DollarRefView>, has_capture: bool) -> Seq<DollarRefView> {
    Seq::new(
        refs.len(),
        |i: int|
            if has_capture {
                refs[i].plain()
            } else {
                refs[i]
            },
    )
}

impl CtxView {
    /// Every capture level begins at a frame or right behind the last one,
    /// and no level begins before the level around it.
    pub open spec fn wf(self) -> bool {
        &&& forall|i: int|
            0 <= i < self.heads.len() ==> #[trigger] self.heads[i] <= self.stacks.len()
        &&& forall|i: int, j: int|
            0 <= i < j < self.heads.len() ==> #[trigger] self.heads[i] <= #[trigger] self.heads[j]
    }

    /// The heads and frames that are left when the innermost scope is closed.
    pub open spec fn outer(self, has_capture: bool) -> CtxView {
        if has_capture {
            self.leave_capture_level()
        } else {
            self
        }
    }

    /// Whether the innermost scope can be closed: there is one, and where it
    /// has references to hand on to a scope around it, the capture level
    /// that is left begins within the frames that are left.
    pub open spec fn may_leave(self, has_capture: bool) -> bool {
        &&& self.scopes.len() > 0
        &&& (self.scopes.len() == 1 || self.scopes.last().refs.len() == 0 || self.outer(
            has_capture,
        ).head() <= self.outer(has_capture).stacks.len())
    }

    /// Whether the innermost frame can be closed: the innermost capture
    /// level then still begins at a frame or right behind the last one.
    pub open spec fn frame_is_free(self) -> bool {
        self.stacks.len() == 0 || self.heads.len() == 0 || self.heads.last() < self.stacks.len()
    }

    /// The index of the first frame of the innermost capture level.
    pub open spec fn head(self) -> int {
        if self.heads.len() > 0 {
            self.heads.last() as int
        } else {
            0
        }
    }

    /// Whether `name` is declared in a frame of the innermost capture level.
    pub open spec fn is_local(self, name: Seq<char>) -> bool {
        exists|i: int, j: int|
            self.head() <= i < self.stacks.len() && 0 <= j < self.stacks[i].len()
                && #[trigger] self.stacks[i][j] == name
    }

    /// The state in which an analysis starts: one scope, one frame, no
    /// capture level.
    pub open spec fn top_level() -> CtxView {
        CtxView {
            scopes: seq![ScopeView::empty()],
            heads: Seq::empty(),
            stacks: seq![Seq::empty()],
        }
    }

    /// The state after a scope was opened, with a capture level of its own
    /// if `has_capture`.
    pub open spec fn enter_scope(self, has_capture: bool) -> CtxView {
        if has_capture {
            CtxView {
                scopes: self.scopes.push(ScopeView::empty()),
                heads: self.heads.push(self.stacks.len()),
                stacks: self.stacks.push(Seq::empty()),
            }
        } else {
            CtxView {
                scopes: self.scopes.push(ScopeView::empty()),
                heads: self.heads,
                stacks: self.stacks,
            }
        }
    }

    /// The state without the innermost capture level and its frame.
    pub open spec fn leave_capture_level(self) -> CtxView {
        CtxView {
            scopes: self.scopes,
            heads: if self.heads.len() > 0 {
                self.heads.drop_last()
            } else {
                self.heads
            },
            stacks: if self.stacks.len() > 0 {
                self.stacks.drop_last()
            } else {
                self.stacks
            },
        }
    }

    /// The state after the innermost scope was closed, and the manifest that
    /// the scope hands out.
    ///
    /// The references of the scope become a manifest. Where a scope remains
    /// open around it, that scope learns whether the context is used, and
    /// records every reference of the manifest that is not local to it
    /// either: without its facet, if the scope that is closed has a capture
    /// level.
    pub open spec fn leave_scope(self, has_capture: bool) -> (CtxView, ScopeView)
        recommends
            self.scopes.len() > 0,
    {
        let outer = self.outer(has_capture);
        let scope = self.scopes.last().finalized();
        let rest = self.scopes.drop_last();
        if rest.len() == 0 {
            (CtxView { scopes: rest, heads: outer.heads, stacks: outer.stacks }, scope)
        } else {
            let parent = ScopeView {
                refs: rest.last().refs + handed_on(escaping(scope.refs, outer), has_capture),
                used_ctx: rest.last().used_ctx || scope.used_ctx,
            };
            (
                CtxView {
                    scopes: rest.update(rest.len() - 1, parent),
                    heads: outer.heads,
                    stacks: outer.stacks,
                },
                scope,
            )
        }
    }

    /// The state after a frame was opened.
    pub open spec fn push_frame(self) -> CtxView {
        CtxView { scopes: self.scopes, heads: self.heads, stacks: self.stacks.push(Seq::empty()) }
    }

    /// The state after the innermost frame was closed.
    pub open spec fn pop_frame(self) -> CtxView {
        CtxView {
            scopes: self.scopes,
            heads: self.heads,
            stacks: if self.stacks.len() > 0 {
                self.stacks.drop_last()
            } else {
                self.stacks
            },
        }
    }

    /// The state after `name` was declared in the innermost frame.
    pub open spec fn declare(self, name: Seq<char>) -> CtxView
        recommends
            self.stacks.len() > 0,
    {
        CtxView {
            scopes: self.scopes,
            heads: self.heads,
            stacks: self.stacks.update(self.stacks.len() - 1, self.stacks.last().push(name)),
        }
    }

    /// The state after the reference `r` was met: recorded in the innermost
    /// scope unless its host is local.
    pub open spec fn add_ref(self, r: DollarRefView) -> CtxView
        recommends
            self.scopes.len() > 0,
    {
        if self.is_local(r.host().name) {
            self
        } else {
            CtxView {
                scopes: self.scopes.update(
                    self.scopes.len() - 1,
                    self.scopes.last().with_ref(r),
                ),
                heads: self.heads,
                stacks: self.stacks,
            }
        }
    }

    /// The state after the innermost scope was seen to use the context.
    pub open spec fn mark_ctx(self) -> CtxView
        recommends
            self.scopes.len() > 0,
    {
        CtxView {
            scopes: self.scopes.update(
                self.scopes.len() - 1,
                self.scopes.last().with_ctx(true),
            ),
            heads: self.heads,
            stacks: self.stacks,
        }
    }
}

impl View for DollarRefsCtx {
    type V = CtxView;

    closed spec fn view(&self) -> CtxView {
        CtxView {
            scopes: scope_stack_items(self.scopes),
            heads: heads_view(head_stack_items(self.capture_level_heads)),
            stacks: frames_view(self.variable_stacks@),
        }
    }
}

impl Default for DollarRefsCtx {
    /// The state in which an analysis starts.
    fn default() -> (ctx: DollarRefsCtx)
        ensures
            ctx@ == CtxView::top_level(),
            ctx@.wf(),
    {
        DollarRefsCtx::top_level()
    }
}

impl DollarRefsCtx {
    /// The state in which an analysis starts.
    pub fn top_level() -> (ctx: DollarRefsCtx)
        ensures
            ctx@ == CtxView::top_level(),
            ctx@.wf(),
    {
        let mut scopes = ScopeStack::new();
        scopes.push(DollarRefsScope::new());
        let mut variable_stacks: Vec<Vec<String>> = Vec::new();
        variable_stacks.push(Vec::new());
        let ctx = DollarRefsCtx { scopes, capture_level_heads: HeadStack::new(), variable_stacks };
        assert(ctx@.scopes =~= CtxView::top_level().scopes);
        assert(ctx@.heads =~= CtxView::top_level().heads);
        assert(ctx@.stacks =~= CtxView::top_level().stacks) by {
            assert(ctx@.stacks[0] =~= Seq::<Seq<char>>::empty());
        }
        ctx
    }

    /// The number of open scopes.
    pub fn scope_depth(&self) -> (n: usize)
        ensures
            n == self@.scopes.len(),
    {
        self.scopes.len()
    }

    /// The number of open frames.
    pub fn frame_depth(&self) -> (n: usize)
        ensures
            n == self@.stacks.len(),
    {
        self.variable_stacks.len()
    }

    /// The number of open capture levels.
    pub fn capture_depth(&self) -> (n: usize)
        ensures
            n == self@.heads.len(),
    {
        self.capture_level_heads.len()
    }

    /// Opens a scope. With `has_capture` the scope is that of a capturing
    /// closure: a capture level begins, with a frame of its own, so that
    /// what is declared from here on is local to the closure.
    pub fn new_dollar_scope(&mut self, has_capture: bool)
        requires
            old(self)@.wf(),
        ensures
            final(self)@ == old(self)@.enter_scope(has_capture),
            final(self)@.wf(),
    {
        if has_capture {
            let head = self.variable_stacks.len();
            self.capture_level_heads.push(head);
            self.variable_stacks.push(Vec::new());
        }
        self.scopes.push(DollarRefsScope::new());
        assert(self@.heads =~= old(self)@.enter_scope(has_capture).heads);
        assert(self@.stacks =~= old(self)@.enter_scope(has_capture).stacks) by {
            if has_capture {
                assert(self@.stacks.last() =~= Seq::<Seq<char>>::empty());
            }
        }
    }

    /// Closes the innermost scope and returns its manifest: the references
    /// sorted with facets first, one entry for each name.
    ///
    /// With `has_capture` the capture level of the scope ends with it. The
    /// scope around it, if one is open, takes over the use of the context
    /// and every reference whose host is not local to it either. From a
    /// scope with a capture level it takes a facet over as an ordinary
    /// variable of the facet's name: the scope that is closed has taken the
    /// facet itself.
    pub fn pop_dollar_scope(&mut self, has_capture: bool) -> (scope: DollarRefsScope)
        requires
            old(self)@.may_leave(has_capture),
        ensures
            (final(self)@, scope@) == old(self)@.leave_scope(has_capture),
    {
        if has_capture {
            self.variable_stacks.pop();
            self.capture_level_heads.pop();
        }
        let ghost outer = self@;
        assert(outer.stacks =~= old(self)@.outer(has_capture).stacks);
        assert(outer.heads =~= old(self)@.outer(has_capture).heads);
        let mut scope = self.scopes.pop().unwrap();
        proof {
            if scope@.refs.len() == 0 {
                lemma_finalize_empty();
            }
        }
        scope.finalize();
        if self.scopes.len() > 0 {
            let mut parent = self.scopes.pop().unwrap();
            let ghost parent0 = parent@;
            parent.merge_used_ctx(scope.used_ctx());
            let n = scope.len();
            let mut i: usize = 0;
            while i < n
                invariant
                    i <= n,
                    n == scope@.refs.len(),
                    n > 0 ==> self@.head() <= self@.stacks.len(),
                    self@.heads == outer.heads,
                    self@.stacks == outer.stacks,
                    parent@.used_ctx == (parent0.used_ctx || scope@.used_ctx),
                    parent@.refs == parent0.refs + handed_on(
                        escaping(scope@.refs.take(i as int), outer),
                        has_capture,
                    ),
                decreases n - i,
            {
                let r = scope.get(i);
                proof {
                    assert(scope@.refs.take(i + 1).drop_last() =~= scope@.refs.take(i as int));
                    assert(self@.is_local(r@.host().name) == outer.is_local(r@.host().name));
                }
                if !self.is_local_var(r.host()) {
                    // A capturing scope has taken the facet for itself: to the
                    // scope around it the reference is an ordinary variable.
                    if has_capture {
                        parent.push(r.without_builtin());
                    } else {
                        parent.push(r.duplicate());
                    }
                }
                assert(parent@.refs =~= parent0.refs + handed_on(
                    escaping(scope@.refs.take(i + 1), outer),
                    has_capture,
                ));
                i += 1;
            }
            proof {
                assert(scope@.refs.take(n as int) =~= scope@.refs);
            }
            self.scopes.push(parent);
            proof {
                let rest = old(self)@.scopes.drop_last();
                assert(self@.scopes =~= rest.update(rest.len() - 1, parent@));
            }
        }
        scope
    }

    /// Whether the innermost scope can be closed: a scope is open, and it
    /// has nothing to hand on, or the capture level that is left begins
    /// within the frames that are left.
    pub fn may_pop_dollar_scope(&self, has_capture: bool) -> (b: bool)
        ensures
            b == self@.may_leave(has_capture),
    {
        let nothing_to_hand_on = match self.scopes.last() {
            Some(scope) => scope.is_empty(),
            None => {
                return false;
            },
        };
        if self.scopes.len() == 1 || nothing_to_hand_on {
            return true;
        }
        let frames = self.variable_stacks.len();
        let levels = self.capture_level_heads.len();
        if has_capture {
            let frames_left = if frames > 0 {
                frames - 1
            } else {
                0
            };
            assert(self@.outer(true).stacks.len() == frames_left);
            if levels >= 2 {
                assert(self@.outer(true).heads.last() == self@.heads[levels - 2]);
                self.capture_level_heads.get(levels - 2) <= frames_left
            } else {
                assert(self@.outer(true).heads.len() == 0);
                true
            }
        } else {
            match self.capture_level_heads.last() {
                Some(head) => head <= frames,
                None => true,
            }
        }
    }

    /// Opens a frame for the variables of a block.
    pub fn push_code_stack(&mut self)
        requires
            old(self)@.wf(),
        ensures
            final(self)@ == old(self)@.push_frame(),
            final(self)@.wf(),
    {
        self.variable_stacks.push(Vec::new());
        assert(self@.stacks =~= old(self)@.push_frame().stacks) by {
            assert(self@.stacks.last() =~= Seq::<Seq<char>>::empty());
        }
    }

    /// Whether the innermost frame can be closed: whether the state is well
    /// formed without it.
    pub fn may_pop_code_stack(&self) -> (b: bool)
        requires
            self@.wf(),
        ensures
            b == self@.frame_is_free(),
            b == self@.pop_frame().wf(),
    {
        proof {
            let c = self@;
            if c.frame_is_free() {
                assert forall|i: int| 0 <= i < c.heads.len() implies #[trigger] c.pop_frame().heads[i]
                    <= c.pop_frame().stacks.len() by {
                    if c.stacks.len() > 0 && i < c.heads.len() - 1 {
                        assert(c.heads[i] <= c.heads[c.heads.len() - 1]);
                    }
                }
            } else {
                assert(c.pop_frame().heads[c.heads.len() - 1] > c.pop_frame().stacks.len());
            }
        }
        let frames = self.variable_stacks.len();
        match self.capture_level_heads.last() {
            Some(head) => frames == 0 || head < frames,
            None => true,
        }
    }

    /// Closes the innermost frame: its variables are no longer in sight.
    pub fn pop_code_stack(&mut self)
        requires
            old(self)@.wf(),
            old(self)@.pop_frame().wf(),
        ensures
            final(self)@ == old(self)@.pop_frame(),
    {
        self.variable_stacks.pop();
        assert(self@.stacks =~= old(self)@.pop_frame().stacks);
    }

    /// Notes that the innermost scope asks for the ambient build context.
    pub fn mark_used_ctx(&mut self)
        requires
            old(self)@.scopes.len() > 0,
        ensures
            final(self)@ == old(self)@.mark_ctx(),
    {
        let mut scope = self.scopes.pop().unwrap();
        scope.merge_used_ctx(true);
        self.scopes.push(scope);
        assert(self@.scopes =~= old(self)@.mark_ctx().scopes);
    }

    /// Declares `name` in the innermost frame.
    pub fn new_local_var(&mut self, name: &Ident)
        requires
            old(self)@.stacks.len() > 0,
        ensures
            final(self)@ == old(self)@.declare(name@.name),
    {
        let mut frame = self.variable_stacks.pop().unwrap();
        let ghost frame0 = frame@;
        frame.push(name.name.clone());
        self.variable_stacks.push(frame);
        assert(self@.stacks =~= old(self)@.declare(name@.name).stacks) by {
            let n = old(self)@.stacks.len() - 1;
            assert(self@.stacks[n] =~= old(self)@.stacks[n].push(name@.name)) by {
                assert(old(self).variable_stacks@[n]@ == frame0);
            }
            assert forall|i: int| 0 <= i < n implies self@.stacks[i] == old(self)@.stacks[i] by {
                assert(self.variable_stacks@[i] == old(self).variable_stacks@[i]);
            }
        }
    }

    /// Records the reference in the innermost scope, unless its host is a
    /// local variable: what is local is no reference to the outside.
    pub fn add_dollar_ref(&mut self, dollar_ref: DollarRef)
        requires
            old(self)@.wf(),
            old(self)@.scopes.len() > 0 || old(self)@.is_local(dollar_ref@.host().name),
        ensures
            final(self)@ == old(self)@.add_ref(dollar_ref@),
    {
        if !self.is_local_var(dollar_ref.host()) {
            let mut scope = self.scopes.pop().unwrap();
            scope.push(dollar_ref);
            self.scopes.push(scope);
            assert(self@.scopes =~= old(self)@.add_ref(dollar_ref@).scopes);
        }
    }

    /// Whether `name` is declared in a frame of the innermost capture level.
    pub fn is_local_var(&self, name: &Ident) -> (local: bool)
        requires
            self@.head() <= self@.stacks.len(),
        ensures
            local == self@.is_local(name@.name),
    {
        let head = match self.capture_level_heads.last() {
            Some(h) => h,
            None => 0,
        };
        assert(head == self@.head());
        let mut i: usize = head;
        while i < self.variable_stacks.len()
            invariant
                head <= i,
                head == self@.head(),
                forall|a: int, b: int|
                    head <= a < i && a < self@.stacks.len() && 0 <= b < self@.stacks[a].len()
                        ==> #[trigger] self@.stacks[a][b] != name@.name,
            decreases self.variable_stacks.len() - i,
        {
            let frame = &self.variable_stacks[i];
            let mut j: usize = 0;
            while j < frame.len()
                invariant
                    head <= i < self.variable_stacks.len(),
                    head == self@.head(),
                    *frame == self.variable_stacks@[i as int],
                    j <= frame.len(),
                    forall|b: int| 0 <= b < j ==> #[trigger] self@.stacks[i as int][b] != name@.name,
                decreases frame.len() - j,
            {
                if frame[j] == name.name {
                    assert(self@.stacks[i as int][j as int] == name@.name);
                    return true;
                }
                j += 1;
            }
            i += 1;
        }
        false
    }
}

} // verus!
