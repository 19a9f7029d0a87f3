//! Query and versioning core of a temporal graph store for typed knowledge.
//!
//! The crate holds the filter algebra over the queryable paths of each record
//! kind, the coercion of loosely typed parameters to the type a path expects,
//! the expansion of matched roots into a subgraph, and the rules under which
//! record revisions are created, updated, archived and unarchived.

pub mod api;
pub mod conversion;
pub mod edges;
pub mod evaluation;
pub mod expression;
pub mod filter;
pub mod identifier;
pub mod number;
pub mod ontology;
pub mod package;
pub mod parameter;
pub mod path;
pub mod query;
pub mod reflection;
pub mod schema;
pub mod store;
pub mod subgraph;
pub mod text;
pub mod versioning;
pub mod wire;
