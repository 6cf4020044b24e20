//! When the checks of a program report nothing, said of the program alone.

pub mod borrowing;
pub mod classes;
pub mod definitions;
pub mod matching;
pub mod meaning;
pub mod members;
pub mod programs;
pub mod source;
pub mod types;
