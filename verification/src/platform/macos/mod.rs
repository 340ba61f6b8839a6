//! The macOS shell.

pub mod app;
pub mod autostart;
pub mod capture;
pub mod hotkeys;
pub mod laws;
pub mod surface;
pub mod tray;
