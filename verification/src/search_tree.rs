//! Searches over a tree of values.

pub mod breadth_first_search;
pub mod occurrence;
