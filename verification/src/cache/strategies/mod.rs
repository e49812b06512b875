//! Strategy decision logic over the low-level storage primitives.
//!
//! - Volatile: key/value only, no enumeration
//! - Document: whole values with enumeration through an index set
//! - Indexed: Document plus secondary field lookups
//! - Flight and Refresher: admission control for read-through loads
//! - Aside: the stored form of a read-through entry

pub mod aside;
pub mod document;
pub mod flight;
pub mod indexed;
pub mod refresher;
pub mod volatile;
