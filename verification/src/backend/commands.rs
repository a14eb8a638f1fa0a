//! The commands the desktop shell exposes to the front end.

pub use super::log_commands::{filter_entries, parse_log};
