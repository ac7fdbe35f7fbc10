//! Pointers: the devices that can point at a place on the screen.

use vstd::prelude::*;

verus! {

/// A unique identifier for the pointer that caused an event.
#[derive(Debug, Clone, Copy, PartialEq, Eq, Structural)]
pub struct PointerId(usize);

impl PointerId {
    pub fn new(id: usize) -> (p: PointerId)
        ensures
            p.index() == id,
    {
        PointerId(id)
    }

    pub closed spec fn index(self) -> usize {
        self.0
    }

    /// The number that tells this pointer from the others.
    #[verifier::when_used_as_spec(index)]
    pub fn get(self) -> (id: usize)
        ensures
            id == self.index(),
    {
        self.0
    }
}

/// The kind of device that caused an event.
#[derive(Debug, Clone, Copy, PartialEq, Eq, Structural)]
pub enum PointerType {
    /// The event was generated by a mouse device.
    Mouse,
    /// The event was generated by a pen or stylus device.
    Pen,
    /// The event was generated by a touch, such as a finger.
    Touch,
}

} // verus!
