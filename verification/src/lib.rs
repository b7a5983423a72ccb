//! Deterministic composition of federated GraphQL subgraph schemas into one
//! supergraph schema annotated with the `join` spec directive vocabulary.
//!
//! The engine is a pure function: subgraph documents in, one composed
//! document plus diagnostics out.  Parsing of SDL text and validation of the
//! produced schema belong to the callers.

pub mod bootstrap;
pub mod connect;
pub mod document;
pub mod error;
pub mod field_set;
pub mod graphql;
pub mod join_spec;
pub mod laws;
pub mod merge;
pub mod order;
pub mod text;
pub mod token;

use vstd::prelude::*;

verus! {

} // verus!
