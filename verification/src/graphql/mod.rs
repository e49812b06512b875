//! Helpers for generated GraphQL clients: filter predicates for
//! Hasura-style `where` clauses, typed column handles, an update-patch
//! three-state value, cursor pagination and request builders.

pub mod columns;
pub mod error;
pub mod fields;
pub mod json;
pub mod nullable;
pub mod predicate;
pub mod requests;
pub mod scalars;
