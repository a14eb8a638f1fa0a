//! Display grouping.

pub mod group_assignment;

pub use group_assignment::assign_groups;
