//! The frozen overlay: pixel compositing, mode layers, and orchestration.

pub mod composite;
pub mod controller;
pub mod events;
pub mod factor;
pub mod fade;
pub mod layer_laws;
pub mod laws;
pub mod legend;
pub mod modes;
pub mod pixel_laws;
pub mod repaint_laws;
pub mod session_laws;
pub mod surface_laws;
pub mod window;
