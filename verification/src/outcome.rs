//! What a search reports.

use vstd::prelude::*;

verus! {

/// The outcome of a search: the index of an element that the comparator
/// answered `Equal` for, or the index of the element examined last.
#[derive(Clone, Copy, Debug, PartialEq, Eq, Structural)]
pub enum SearchResult {
    Match(usize),
    NoMatch(usize),
}

impl SearchResult {
    /// The index carried by either variant.
    pub open spec fn index(self) -> int {
        match self {
            SearchResult::Match(i) => i as int,
            SearchResult::NoMatch(i) => i as int,
        }
    }

    /// A match at index `i`.
    pub open spec fn found_at(i: int) -> SearchResult {
        SearchResult::Match(i as usize)
    }

    /// A miss whose last examined index is `i`.
    pub open spec fn missed_at(i: int) -> SearchResult {
        SearchResult::NoMatch(i as usize)
    }
}

} // verus!
