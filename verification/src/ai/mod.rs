//! The chat assistant: providers, messages, and the decisions behind the
//! panel's handlers and components.

pub mod components;
pub mod handlers;
pub mod state;
pub mod types;
