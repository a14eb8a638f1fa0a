//! Chat types.

pub mod chat_message;
pub mod provider;

pub use chat_message::ChatMessage;
pub use provider::Provider;
