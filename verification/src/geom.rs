//! Lengths and places in whole layout units.

use vstd::prelude::*;

verus! {

/// A width and a height.
#[derive(Clone, Copy, Debug, PartialEq, Eq, Structural)]
pub struct Size {
    pub width: u32,
    pub height: u32,
}

/// A place.
#[derive(Clone, Copy, Debug, PartialEq, Eq, Structural)]
pub struct Point {
    pub x: u32,
    pub y: u32,
}

/// A move of everything that a node draws.
#[derive(Clone, Copy, Debug, PartialEq, Eq, Structural)]
pub struct Transform {
    pub dx: i32,
    pub dy: i32,
}

/// The sizes that a node may take.
#[derive(Clone, Copy, Debug, PartialEq, Eq, Structural)]
pub struct BoxClamp {
    pub min: Size,
    pub max: Size,
}

/// `a + b`, or the largest length if that is less.
pub open spec fn plus(a: u32, b: u32) -> u32 {
    if a + b > u32::MAX {
        u32::MAX
    } else {
        (a + b) as u32
    }
}

/// `a - b`, or nothing if that is more.
pub open spec fn minus(a: u32, b: u32) -> u32 {
    if a < b {
        0
    } else {
        (a - b) as u32
    }
}

/// `v`, or the bound of `lo` and `hi` that it lies beyond; `lo` where the
/// bounds cross.
pub open spec fn within(v: u32, lo: u32, hi: u32) -> u32 {
    if v < lo || hi < lo {
        lo
    } else if v > hi {
        hi
    } else {
        v
    }
}

impl Size {
    pub fn new(width: u32, height: u32) -> (s: Size)
        ensures
            s == (Size { width, height }),
    {
        Size { width, height }
    }

    /// The size with `by` added to both lengths.
    pub open spec fn grown(self, by: u32) -> Size {
        Size { width: plus(self.width, by), height: plus(self.height, by) }
    }

    /// The size with `by` taken from both lengths.
    pub open spec fn shrunk(self, by: u32) -> Size {
        Size { width: minus(self.width, by), height: minus(self.height, by) }
    }

    #[verifier::when_used_as_spec(grown)]
    pub fn grow(self, by: u32) -> (s: Size)
        ensures
            s == self.grown(by),
    {
        Size { width: self.width.saturating_add(by), height: self.height.saturating_add(by) }
    }

    #[verifier::when_used_as_spec(shrunk)]
    pub fn shrink(self, by: u32) -> (s: Size)
        ensures
            s == self.shrunk(by),
    {
        Size { width: self.width.saturating_sub(by), height: self.height.saturating_sub(by) }
    }
}

impl BoxClamp {
    /// The clamp that admits one size only.
    pub fn fixed(size: Size) -> (c: BoxClamp)
        ensures
            c == (BoxClamp { min: size, max: size }),
    {
        BoxClamp { min: size, max: size }
    }

    /// The size nearest to `size` that the clamp admits.
    pub open spec fn clamped(self, size: Size) -> Size {
        Size {
            width: within(size.width, self.min.width, self.max.width),
            height: within(size.height, self.min.height, self.max.height),
        }
    }

    #[verifier::when_used_as_spec(clamped)]
    pub fn clamp(self, size: Size) -> (s: Size)
        ensures
            s == self.clamped(size),
    {
        Size {
            width: clamp_length(size.width, self.min.width, self.max.width),
            height: clamp_length(size.height, self.min.height, self.max.height),
        }
    }
}

fn clamp_length(v: u32, lo: u32, hi: u32) -> (r: u32)
    ensures
        r == within(v, lo, hi),
{
    if v < lo || hi < lo {
        lo
    } else if v > hi {
        hi
    } else {
        v
    }
}

} // verus!
