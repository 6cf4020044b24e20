//! The rules for signatures.

pub mod classes;
pub mod construction;
pub mod definitions;
pub mod laws;
pub mod types;
