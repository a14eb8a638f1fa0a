//! Logic of the application's components: level ranks and colours, the
//! stand-alone markdown renderer of the chat panel, the file tabs, the
//! status bar, the title bar's menus and the keyboard shortcuts.

pub mod severity;
pub mod markdown;
pub mod file_bar;
pub mod bottom_bar;
pub mod title_bar;
