//! The native value that crosses the boundary, and the native computation.

use vstd::prelude::*;

verus! {

/// The payload record: a single non-negative size field.
#[derive(Debug, PartialEq, Eq, Structural, Clone, Copy)]
pub struct World {
    pub size: usize,
}

/// The native object behind a handle. It carries no state of its own: the
/// computation is a pure function of the payload, so two handles can never
/// influence each other.
pub struct HelloStruct {}

impl HelloStruct {
    pub fn new() -> (r: Self) {
        Self {}
    }

    /// The native computation: grow the world by one.
    pub fn hello(&self, world: World) -> (r: World)
        requires
            world.size < usize::MAX,
        ensures
            r.size == world.size + 1,
    {
        World { size: world.size + 1 }
    }
}

} // verus!
