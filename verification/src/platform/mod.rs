//! The decisions of the platform shells.

pub mod macos;
pub mod shared;
pub mod wayland;
pub mod windows;
