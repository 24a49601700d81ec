//! Builds a graph-shaped query schema out of a relational catalog: tables
//! become object types, columns become typed scalar fields, and foreign-key
//! edges become relation fields resolved through generated SQL joins.
//!
//! The crate holds the catalog parsing, the native-type-to-scalar mapping,
//! the value coercion, the schema synthesis and the per-field resolution
//! logic, each with a verified contract. Everything that talks to the
//! network, the process environment or the query engine lives outside.

pub mod catalog;
pub mod cells;
pub mod config;
pub mod error;
pub mod numeral;
pub mod resolver;
pub mod scalar;
pub mod schema;
pub mod text;
pub mod trusted;
