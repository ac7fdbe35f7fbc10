//! How what is written as a child becomes the child that a parent takes.

use vstd::prelude::*;

verus! {

/// A parent together with its child.
#[derive(Debug, PartialEq, Eq)]
pub struct Pair<W, C> {
    pub parent: W,
    pub child: C,
}

/// Types that are children as they are.
pub trait ChildOfCompose {

}

/// A child that can be made of a `T`. The number `M` tells the ways of
/// making one type of another apart.
pub trait ComposeChildFrom<T, const M: usize>: Sized {
    /// The child that is made of `from`.
    spec fn composed_from(from: T) -> Self;

    fn compose_child_from(from: T) -> (child: Self)
        ensures
            child == Self::composed_from(from),
    ;
}

/// What is a child already is taken as it is.
impl<T: ChildOfCompose> ComposeChildFrom<T, 0> for T {
    open spec fn composed_from(from: T) -> T {
        from
    }

    fn compose_child_from(from: T) -> (child: T) {
        from
    }
}

/// A pair becomes a pair with the same parent, its child made into the
/// child that is asked for.
impl<W, C: ComposeChildFrom<T, M>, T, const M: usize> ComposeChildFrom<Pair<W, T>, M> for Pair<
    W,
    C,
> {
    open spec fn composed_from(from: Pair<W, T>) -> Pair<W, C> {
        Pair { parent: from.parent, child: C::composed_from(from.child) }
    }

    fn compose_child_from(from: Pair<W, T>) -> (child: Pair<W, C>) {
        let Pair { parent, child } = from;
        Pair { parent, child: C::compose_child_from(child) }
    }
}

/// The same conversion, asked of the value that is to become a child.
pub trait IntoChildCompose<C, const M: usize> {
    spec fn composed_into(self) -> C;

    fn into_child_compose(self) -> (child: C)
        ensures
            child == self.composed_into(),
    ;
}

impl<T, C, const M: usize> IntoChildCompose<C, M> for T where C: ComposeChildFrom<T, M> {
    open spec fn composed_into(self) -> C {
        C::composed_from(self)
    }

    fn into_child_compose(self) -> (child: C) {
        C::compose_child_from(self)
    }
}

} // verus!
