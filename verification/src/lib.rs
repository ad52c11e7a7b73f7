//! Core of a folder-watching backup tool: what to back up, how to
//! name and place each copy, when a file counts as written, and what the
//! user is told about it.

pub mod text;
pub mod path;
pub mod models;
pub mod services;
pub mod utilities;
