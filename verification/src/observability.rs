//! Explaining decisions to operators.
pub mod explain;
