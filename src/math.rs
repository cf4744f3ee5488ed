//! Integer arithmetic on machine integers, defined wherever the exact
//! result fits.

use vstd::prelude::*;

verus! {

pub fn add(x: u32, y: u32) -> (r: u32)
    requires
        x + y <= u32::MAX,
    ensures
        r == x + y,
{
    x + y
}

pub fn sub(x: i32, y: i32) -> (r: i32)
    requires
        i32::MIN <= x - y <= i32::MAX,
    ensures
        r == x - y,
{
    x - y
}

} // verus!
