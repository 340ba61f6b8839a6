//! The Wayland shell.

pub mod app;
pub mod capture;
pub mod clipboard;
pub mod ipc;
pub mod laws;
pub mod shell;
