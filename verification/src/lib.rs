//! Existence search over JSON-like trees, level by level, together with the
//! layout rules of the timing report that the search is measured into.

pub mod value;
pub mod search_tree;
pub mod report;
