//! Cache abstractions: key layout, write policy, storage models and the
//! decision logic of every cache strategy.

pub mod error;
pub mod values;
pub mod keyspace;
pub mod options;
pub mod memory;
pub mod sets;
pub mod capabilities;
pub mod policy;
pub mod strategies;
pub mod drop;
pub mod database;
pub mod redis;
