//! What lowering leaves as it is: all blocks but the one where a graph goes on.

pub mod access;
pub mod base;
pub mod bindings;
pub mod calls;
pub mod closures;
pub mod emit;
pub mod expressions;
pub mod jsx;
pub mod loops;
pub mod recursion;
pub mod statements;
pub mod switches;
