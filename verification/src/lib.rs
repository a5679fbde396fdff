//! Native digest pipeline for a zero-knowledge document-commitment scheme.
//!
//! A document is a fixed list of rows, each a (title, content) pair of UTF-8
//! strings tagged with a boolean selector. Every row is compressed to a
//! scalar-field element by SHA-256 followed by a tree of two-to-one Poseidon
//! compressions; the row hashes are folded into a left-leaning commitment
//! chain, and the selected row hashes are summed into a selector accumulator.
//! The commitment and the accumulator are the two public inputs of the
//! accompanying proof system; this crate computes them natively and states
//! exactly what each function returns.

pub mod conversion;
pub mod field;
pub mod laws;
pub mod services;
pub mod sha256;
pub mod sponge;
