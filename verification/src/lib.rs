//! SpotFreeze: freeze the screen, spotlight or magnify a part of it, and snip
//! pixels to the clipboard.
//!
//! This crate holds the logic of the application: geometry, pixel
//! compositing, the mode state machines, hotkey planning, settings text, and
//! the decisions each platform shell takes. Everything is plain data in and
//! plain data out; windows, sockets, screens and clocks belong to the program
//! around it.

pub mod autostart;
pub mod capture;
pub mod cli;
pub mod geometry;
pub mod hotkeys;
mod natural;
pub mod overlay;
pub mod platform;
pub mod settings;
pub mod text;
pub mod tray;
