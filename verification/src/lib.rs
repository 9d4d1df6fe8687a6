//! The state engine of a marketplace for prompts: the record store, the
//! rules that gate access, the purchase bookkeeping and the rating tallies.
//!
//! - [`types`] holds the records and requests, [`error`] the failures and
//!   the envelope of a result, [`validation`] the bounds on what a caller
//!   may submit, and [`text`] the text primitives under both.
//! - [`model`] describes the marketplace as a mathematical state, with
//!   what each operation makes of it; [`store`] is the marketplace itself,
//!   each operation proved against the model; [`search`] ranks what a
//!   query finds.
//! - [`counting`] and [`invariants`] carry the proofs that the store stays
//!   consistent, and [`laws`] states what holds across operations.

pub mod counting;
pub mod error;
pub mod invariants;
pub mod laws;
pub mod model;
pub mod search;
pub mod store;
pub mod text;
pub mod types;
pub mod validation;
