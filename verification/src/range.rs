//! Inclusive index ranges, given as a pair `(lower, upper)`.

use vstd::prelude::*;

verus! {

/// The first index of `range`.
pub open spec fn lower(range: (usize, usize)) -> int {
    range.0 as int
}

/// The last index of `range`.
pub open spec fn upper(range: (usize, usize)) -> int {
    range.1 as int
}

/// `range` is not empty and lies inside a sequence of `len` elements.
pub open spec fn valid_range(range: (usize, usize), len: nat) -> bool {
    range.0 <= range.1 < len
}

} // verus!
