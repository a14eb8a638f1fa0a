//! Core data structures.

pub mod log_entry;
pub mod log_file;
pub mod logan_action;
pub mod theme;

pub use log_entry::{EntryView, LogEntry};
pub use log_file::LogFile;
pub use logan_action::LoganAction;
pub use theme::Theme;
