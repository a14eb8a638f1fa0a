//! Entry filtering.

pub mod apply_filters;
pub mod level_propagation;
pub mod pattern;

pub use apply_filters::apply_filters;
pub use level_propagation::propagate_levels;
