//! What several platform shells share.

pub mod edit;
