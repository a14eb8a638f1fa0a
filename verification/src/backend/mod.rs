//! The desktop back end: log parsing and filtering commands and the
//! chat-provider helpers.

pub mod log_commands;
pub mod types;
pub mod ai;
pub mod commands;
