//! Lowering of checked bodies to control-flow graphs.

pub mod access;
pub mod bindings;
pub mod builder;
pub mod calls;
pub mod closures;
pub mod constants;
pub mod context;
pub mod emit;
pub mod execution;
pub mod expressions;
pub mod frames;
pub mod functions;
pub mod grouping;
pub mod inference;
pub mod jsx;
pub mod laws;
pub mod literals;
pub mod loops;
pub mod members;
pub mod numerals;
pub mod parser;
pub mod recursion;
pub mod shape;
pub mod statements;
pub mod switches;
pub mod targets;
pub mod types;
