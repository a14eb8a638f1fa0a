//! Decisions and texts of the viewer's components.

pub mod context_menu;
pub mod file_viewer;
pub mod log_rows;
