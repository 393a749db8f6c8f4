//! The picture processing unit, as far as the CPU sees it.
use vstd::prelude::*;

verus! {

/// The picture processing unit's registers; reads give 0, writes are dropped.
pub struct Ppu {}

impl Ppu {
    pub fn new() -> Self {
        Self {}
    }

    /// Reads register `sel`: always 0.
    pub fn get(&self, sel: usize) -> (v: u8)
        ensures
            v == 0,
    {
        0
    }

    /// Writes `value` to register `sel`: it has no effect.
    pub fn set(&self, sel: usize, value: u8) {
    }
}

} // verus!
