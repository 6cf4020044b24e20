//! Checks only add to the reports that were made before them.

pub mod base;
pub mod classes;
pub mod construction;
pub mod definitions;
pub mod source;
pub mod types;
