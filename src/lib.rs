//! A line-oriented text editor core: a text buffer whose every change is a
//! reversible command, with per-document undo and redo, and the workspace,
//! command parsing and logging decisions around it.

pub mod error;
pub mod text;
pub mod model;
pub mod commands;
pub mod editor;
pub mod laws;
pub mod parse;
pub mod paths;
pub mod persist;
pub mod workspace;
pub mod event;
pub mod logging;
pub mod outcome;
pub mod router;
pub mod application;
pub mod handlers;
pub mod tree;
pub mod session;
