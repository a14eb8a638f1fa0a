//! State of the chat panel.

pub mod panel_state;
