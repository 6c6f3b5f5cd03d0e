//! The terminal interface's own state and what each key press does to it.

pub mod app;
pub mod input;
