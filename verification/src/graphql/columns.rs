//! Column ordering: sort direction and one sort key.

use vstd::prelude::*;
use crate::graphql::json::{Json, JsonV, object1, single};
use crate::text::owned;

verus! {

/// The sort direction of an order-by term.
#[derive(Clone, Copy, Debug, PartialEq, Eq, Structural)]
pub enum OrderBy {
    /// Ascending order.
    Asc,
    /// Descending order.
    Desc,
}

/// The name a direction is sent as: `Asc` or `Desc`.
pub open spec fn direction_name(d: OrderBy) -> Seq<char> {
    match d {
        OrderBy::Asc => "Asc"@,
        OrderBy::Desc => "Desc"@,
    }
}

/// One sort key (column and direction), produced by a field handle's `asc`
/// or `desc`. A list request's ordering takes a list of them.
#[derive(Debug)]
pub struct OrderTerm {
    col: String,
    dir: OrderBy,
}

impl OrderTerm {
    /// The column sorted by.
    pub closed spec fn spec_col(&self) -> Seq<char> {
        self.col@
    }

    /// The sort direction.
    pub closed spec fn spec_dir(&self) -> OrderBy {
        self.dir
    }

    /// A sort key on `col` in direction `dir`.
    pub fn new(col: &str, dir: OrderBy) -> (t: OrderTerm)
        ensures
            t.spec_col() == col@,
            t.spec_dir() == dir,
    {
        OrderTerm { col: owned(col), dir }
    }

    /// The column sorted by.
    pub fn col(&self) -> (c: &str)
        ensures
            c@ == self.spec_col(),
    {
        self.col.as_str()
    }

    /// The sort direction.
    pub fn dir(&self) -> (d: OrderBy)
        ensures
            d == self.spec_dir(),
    {
        self.dir
    }

    /// The term as it is sent: `{col: "Asc"}` or `{col: "Desc"}`.
    pub fn to_json(&self) -> (j: Json)
        ensures
            j@ == single(self.spec_col(), JsonV::Str(direction_name(self.spec_dir()))),
    {
        let name = match self.dir {
            OrderBy::Asc => owned("Asc"),
            OrderBy::Desc => owned("Desc"),
        };
        object1(self.col.clone(), Json::Str(name))
    }
}

impl Clone for OrderTerm {
    fn clone(&self) -> (t: Self)
        ensures
            t.spec_col() == self.spec_col(),
            t.spec_dir() == self.spec_dir(),
    {
        OrderTerm { col: self.col.clone(), dir: self.dir }
    }
}

} // verus!
