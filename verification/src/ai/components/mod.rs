//! Texts of the chat panel's components.

pub mod ai_panel;
pub mod input_area;
pub mod message_bubble;
pub mod setup_panel;
