//! Hotkeys: gestures, the frozen-mode plan, native key codes, and registration
//! bookkeeping.

pub mod frozen;
pub mod gesture;
pub mod keymap;
pub mod laws;
pub mod manager;
