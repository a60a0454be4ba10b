//! Two-panel file manager logic.

pub mod app;
pub mod archive;
pub mod bookmark;
pub mod dialogs;
pub mod entry;
pub mod extract;
pub mod file_op;
pub mod frame;
pub mod glob;
pub mod hash;
pub mod install;
pub mod jobs;
pub mod labels;
pub mod mouse;
pub mod number;
pub mod ops;
pub mod panel;
pub mod path;
pub mod platform;
pub mod rename;
pub mod search;
pub mod shortcuts;
pub mod sort;
pub mod state_file;
pub mod state_laws;
pub mod text;
pub mod tree;
pub mod update;
pub mod view;
pub mod window_state;
