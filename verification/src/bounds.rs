//! Signed search bounds.
//!
//! The bounds of the window still to be searched are kept as signed
//! integers, so that the upper bound can fall to `-1` when the element at
//! index 0 proves too large.

use vstd::prelude::*;

verus! {

/// An index as a signed bound.
pub(crate) fn signed(i: usize) -> (bound: i128)
    ensures
        bound == i,
{
    i as i128
}

/// The index halfway between two bounds, rounded down.
pub(crate) fn midpoint(l: i128, u: i128) -> (i: usize)
    requires
        0 <= l <= u <= usize::MAX,
    ensures
        i == (l + u) / 2,
        l <= i <= u,
{
    ((l + u) / 2) as usize
}

} // verus!
