//! The editing logic of RustPad, a small Notepad-style text editor: text
//! search and replacement, line arithmetic, the editor's state machine,
//! the settings file format and the messages shown to the user.

pub mod text;
pub mod unicode;
pub mod search;
pub mod strings;
pub mod timestamp;
pub mod file_ops;
pub mod settings;
pub mod message;
pub mod editor;
pub mod font_dialog;
pub mod menu;
