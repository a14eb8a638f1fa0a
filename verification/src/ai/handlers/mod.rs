//! Decisions of the chat panel's handlers.

pub mod send_message;
pub mod mention;
pub mod logan_action;
