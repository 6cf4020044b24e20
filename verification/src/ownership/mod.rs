//! Ownership: which types are copied, dropped and shared between threads, and how a body moves
//! and borrows its values.

pub mod analysis;
pub mod arrange;
pub mod derive;
pub mod fact_laws;
pub mod facts;
pub mod loans;
pub mod ordering;
pub mod place_laws;
pub mod places;
pub mod reach;
pub mod safety;
pub mod soundness;
