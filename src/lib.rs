//! Walks a project's files as plain entries, decides which of them belong in a
//! code dump, and renders the dump as text lines.

pub mod cli;
pub mod text;
pub mod config;
pub mod scanner;
pub mod order;
pub mod utils;
pub mod render;
pub mod project;
