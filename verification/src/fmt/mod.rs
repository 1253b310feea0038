//! Formatting of syntax trees.

pub mod effects;
pub mod formatter;
pub mod laws;
pub mod places;
pub mod plan;
pub mod syntax;
