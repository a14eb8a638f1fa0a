//! Viewer data types.

pub mod display_entry;
pub mod filter_params;

pub use display_entry::DisplayEntry;
pub use filter_params::FilterParams;
