//! Optional backend capabilities resolved during database construction.

use std::sync::Arc;
use vstd::prelude::*;

verus! {

/// Optional behavior a backend can provide beyond the required storage
/// primitives: server-side sets (`S`) and keyspace scanning (`C`).
///
/// A backend declares its capabilities once when constructing a database.
/// Strategies retain only the capabilities they use and report `Unsupported`
/// when an operation requires one that is absent.
pub struct Capabilities<S: ?Sized, C: ?Sized> {
    sets: Option<Arc<S>>,
    scanner: Option<Arc<C>>,
}

impl<S: ?Sized, C: ?Sized> Capabilities<S, C> {
    /// The declared Sets capability, if any.
    pub closed spec fn spec_sets(&self) -> Option<Arc<S>> {
        self.sets
    }

    /// The declared Scanner capability, if any.
    pub closed spec fn spec_scanner(&self) -> Option<Arc<C>> {
        self.scanner
    }

    /// Creates a bundle containing only the required storage behavior.
    pub fn new() -> (c: Self)
        ensures
            c.spec_sets() is None,
            c.spec_scanner() is None,
    {
        Capabilities { sets: None, scanner: None }
    }

    /// Declares server-side set support, replacing any earlier declaration.
    pub fn with_sets(self, sets: Arc<S>) -> (c: Self)
        ensures
            c.spec_sets() == Some(sets),
            c.spec_scanner() == self.spec_scanner(),
    {
        Capabilities { sets: Some(sets), scanner: self.scanner }
    }

    /// Returns the declared Sets capability, if the backend has one.
    pub fn sets(&self) -> (r: Option<Arc<S>>)
        ensures
            r == self.spec_sets(),
    {
        match &self.sets {
            Some(s) => Some(Arc::clone(s)),
            None => None,
        }
    }

    /// Declares keyspace scanning support, replacing any earlier declaration.
    pub fn with_scanner(self, scanner: Arc<C>) -> (c: Self)
        ensures
            c.spec_scanner() == Some(scanner),
            c.spec_sets() == self.spec_sets(),
    {
        Capabilities { sets: self.sets, scanner: Some(scanner) }
    }

    /// Returns the declared Scanner capability, if the backend has one.
    pub fn scanner(&self) -> (r: Option<Arc<C>>)
        ensures
            r == self.spec_scanner(),
    {
        match &self.scanner {
            Some(s) => Some(Arc::clone(s)),
            None => None,
        }
    }
}

impl<S: ?Sized, C: ?Sized> Default for Capabilities<S, C> {
    /// The bundle with no optional capability.
    fn default() -> (c: Self)
        ensures
            c.spec_sets() is None,
            c.spec_scanner() is None,
    {
        Capabilities { sets: None, scanner: None }
    }
}

impl<S: ?Sized, C: ?Sized> Clone for Capabilities<S, C> {
    fn clone(&self) -> (c: Self)
        ensures
            c.spec_sets() == self.spec_sets(),
            c.spec_scanner() == self.spec_scanner(),
    {
        Capabilities { sets: self.sets(), scanner: self.scanner() }
    }
}

} // verus!
