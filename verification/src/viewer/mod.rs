//! The log viewer: filter settings, filtering, level propagation and the
//! grouping of continuation lines for display.

pub mod filters;
pub mod rendering;
pub mod types;
pub mod components;
