//! A verified core for an application-launcher descriptor manager: a
//! round-trippable codec for the sectioned key=value descriptor text format,
//! a validator for the semantic rules over a record, a scanner that merges
//! two precedence-ordered search roots, and an indexer that fans records out
//! into sorted category buckets.

pub mod codec;
pub mod error;
pub mod index;
pub mod roundtrip;
pub mod scanner;
pub mod text;
pub mod validate;
