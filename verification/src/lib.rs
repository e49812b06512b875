//! Cache strategies over pluggable storage backends, and the query-building
//! helpers used by generated GraphQL clients.

pub mod time;
pub mod text;
pub mod cache;
pub mod graphql;
