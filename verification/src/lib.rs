//! Core logic of the Fuse video tool: single-instance locking, the state of
//! non-blocking file dialogs, the steps of the ffmpeg download, and the
//! plain data the GUI is built from.

pub mod gui;
pub mod filedialog;
pub mod instancing;
pub mod ffmpeg;
pub mod app;
