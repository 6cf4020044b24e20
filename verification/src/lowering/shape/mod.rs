//! Every graph that lowering makes is well formed.

pub mod access;
pub mod base;
pub mod bindings;
pub mod calls;
pub mod closures;
pub mod emit;
pub mod expressions;
pub mod functions;
pub mod jsx;
pub mod kinds;
pub mod loops;
pub mod recursion;
pub mod statements;
pub mod switches;
