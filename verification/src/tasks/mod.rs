//! The tasks that keep the repository and its artifacts in step.
pub mod installer;
pub mod laws;
pub mod tree;
pub mod wiring;
