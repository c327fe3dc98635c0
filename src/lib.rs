//! Position queries over a resolved Yul syntax tree: locating the identifier or
//! literal under a cursor, classifying literals, and navigating from a reference
//! to the declaration that binds it.

pub mod ast;
pub mod definition_finder;
pub mod dune_apis;
pub mod identifier_finder;
pub mod invariants;
pub mod literal_finder;
