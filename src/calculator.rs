//! A binary operation on `u32` chosen by the caller and run on demand.

use vstd::prelude::*;

verus! {

pub struct BinaryCalculator<F: Fn(u32, u32) -> u32> {
    func: F,
}

impl<F: Fn(u32, u32) -> u32> BinaryCalculator<F> {
    /// The operation this calculator runs.
    pub closed spec fn func(&self) -> F {
        self.func
    }

    pub fn new(func: F) -> (r: Self)
        ensures
            r.func() == func,
    {
        BinaryCalculator { func }
    }

    /// Runs the operation on `x` and `y`.
    pub fn run(&self, x: u32, y: u32) -> (r: u32)
        requires
            self.func().requires((x, y)),
        ensures
            self.func().ensures((x, y), r),
    {
        (self.func)(x, y)
    }
}

} // verus!
