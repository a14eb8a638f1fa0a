//! Types and constants shared by the viewer, the filters and the chat panel.

pub mod constants;
pub mod types;
