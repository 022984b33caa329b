//! Parsing and canonical rendering of `order_by` clauses.
//!
//! A query is a list of clauses with commas between them. A clause names a
//! field, a dotted path of lower-case identifiers such as `user.created_at`,
//! and may add a direction, `asc` or `desc`, in lower or in upper case.
//! Without a direction a field is sorted ascending. Empty clauses are passed
//! over; a query without any clause stands for no ordering at all.
//!
//! [`OrderBy::new`] parses a query into its directives, or refuses it as a
//! whole with a [`ParseQueryError`] for the first clause that does not fit.
//! [`OrderBy::to_string`] writes the directives in canonical form, every
//! direction spelled out: `a, b DESC` becomes `order_by a asc,b desc`.
//!
//! The functions are verified against contracts over character sequences.
//! One call is taken on trust: the one that quotes a token for the message
//! of an error, which the standard library formats. `query` says what a
//! query stands for and what its canonical text is, `grammar` proves that
//! every query of the grammar is accepted, and `canonical` proves that
//! clauses keep their order and that the canonical text parses to the
//! ordering it was written from.

pub mod canonical;
pub mod chars;
pub mod error;
pub mod field;
pub mod grammar;
pub mod order;
pub mod pieces;
pub mod query;

pub use crate::error::ParseQueryError;
pub use crate::field::Field;
pub use crate::order::Order;
pub use crate::query::OrderBy;
