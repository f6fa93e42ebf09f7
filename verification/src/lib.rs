//! Constrained random generation of queries and predicates over an in-memory
//! table model.
//!
//! Given a table, the library draws statements against it and predicates
//! over its columns. What it draws is random, but never arbitrary: each
//! generator states what holds of every predicate it can draw, up to the
//! guarantee that a predicate synthesized for a row evaluates on that row to
//! the outcome that was asked for.
//!
//! Randomness comes from one seeded source that the caller hands in, so a
//! seed reproduces what was drawn.

pub mod arbitrary;
pub mod bounded;
pub mod choice;
pub mod compound;
pub mod entropy;
pub mod error;
pub mod order;
pub mod predicate;
pub mod query;
pub mod simple;
pub mod synthesis;
pub mod table;
pub mod value;
