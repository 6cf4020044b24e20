//! Checks of a resolved program, and the graphs that its bodies are lowered to.
//!
//! A program is given as a [`hir::Program`]: its modules with their tokens, its declarations and
//! its definitions. Four things are done with it.
//!
//! * [`source_rules`] and [`signatures`] check rules that need no bodies, or only their tokens.
//! * [`lowering`] turns each checked body into a control-flow graph of the form in [`mir`].
//! * [`ownership`] derives which types are copied, have a destructor, and cross threads, and
//!   checks the moves and loans of a graph.
//!
//! What holds of the results is stated beside the functions, and, where it relates several of
//! them, in [`source_laws`], [`signatures::laws`], [`lowering::laws`], [`lowering::shape`],
//! [`lowering::targets`], [`lowering::grouping`], [`lowering::numerals`],
//! [`lowering::inference`] and [`ownership::soundness`].
//!
//! What the checks are for is stated of the programs and graphs alone. [`acceptance`] says which
//! programs are accepted, [`ownership::fact_laws`] and [`ownership::place_laws`] what types and places
//! are,
//! [`ownership::safety`] which ways through a body are safe, and [`lowering::execution`] what a graph
//! does when it is executed, for which [`lowering::frames`] says what lowering leaves as it is.

pub mod acceptance;
pub mod appending;
pub mod chains;
pub mod diagnostics;
pub mod hir;
pub mod ids;
pub mod list;
pub mod lowering;
pub mod mir;
pub mod names;
pub mod ownership;
pub mod program;
pub mod reports;
pub mod signatures;
pub mod source_laws;
pub mod source_rules;
pub mod syntax;
pub mod text;
