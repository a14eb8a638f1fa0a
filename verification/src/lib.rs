//! Verified core of a log-file viewer: log parsing, filtering, level
//! propagation, grouping, a small markdown renderer, the chat helpers, and
//! the decisions of the user interface (tabs, rows, menus, shortcuts,
//! filter settings).

pub mod text;
pub mod shared;
pub mod backend;
pub mod components;
pub mod viewer;
pub mod markdown;
pub mod ai;
pub mod app_state;
