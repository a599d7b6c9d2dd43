//! Core of `tsk`: the thread and task model, its naming and storage
//! layout, the daemon's request logic and the terminal view's layout.

pub mod text;
pub mod model;
pub mod paths;
pub mod threads;
pub mod index_md;
pub mod order;
pub mod tasks;
pub mod layout;
pub mod date;
pub mod protocol;
pub mod cli;
pub mod navigation;
pub mod help;
