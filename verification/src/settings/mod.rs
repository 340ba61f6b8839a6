//! Application settings: the model and its text form.

pub mod laws;
pub mod model;
pub mod record;
pub mod store;
