//! Decision logic, parsers and formatters of the Memory Cleaner utility.

pub mod auto_cleanup;
pub mod text;
pub mod ipc;
pub mod log;
pub mod memory;
pub mod hotkey;
pub mod nt;
pub mod optimize;
pub mod utf16;
pub mod process;
pub mod locale;
pub mod settings;
pub mod volume;
pub mod window;
pub mod messages;
pub mod startup;
pub mod instance;
pub mod notification;
pub mod commands;
pub mod clipboard;
pub mod runner;
pub mod preferences;
pub mod editor;
pub mod cleanup_button;
