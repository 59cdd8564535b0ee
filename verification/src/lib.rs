//! Binary search over an index range of a sorted slice, driven by a
//! three-way comparator.
//!
//! [`binary_search`] looks for a key among the elements between two
//! indices, both inclusive, and reports either the index of an element
//! that matches or the index it examined last. What it returns is stated
//! over the comparator's answers in [`model`], where the laws of the
//! search are proved.

mod bounds;
pub mod compare;
pub mod model;
pub mod outcome;
pub mod range;
pub mod search;

pub use crate::compare::{compare_keys, compare_uint, KeyValuePair};
pub use crate::outcome::SearchResult;
pub use crate::search::{binary_search, checked_binary_search, InvalidRange};
