//! Scalars that keep their precision on the wire.

use vstd::prelude::*;
use crate::graphql::json::{Json, JsonV};
use crate::text::{decimal, push_char, push_decimal};

verus! {

/// The decimal text of an integer, with a leading `-` when negative.
pub open spec fn signed_decimal(n: int) -> Seq<char> {
    if n < 0 { seq!['-'] + decimal((-n) as nat) } else { decimal(n as nat) }
}

/// A 64-bit integer GraphQL scalar. Engines commonly send 64-bit integers as
/// JSON strings to preserve precision, so it is sent as a string.
#[derive(Clone, Copy, Debug, PartialEq, Eq, Structural)]
pub struct Int64(pub i64);

impl Int64 {
    /// The value as it is sent: its decimal text as a JSON string.
    pub fn to_json(&self) -> (j: Json)
        ensures
            j@ == JsonV::Str(signed_decimal(self.0 as int)),
    {
        let mut s = String::new();
        let n = self.0;
        if n < 0 {
            push_char(&mut s, '-');
            let m: u64 = (0i128 - (n as i128)) as u64;
            push_decimal(&mut s, m);
            assert(s@ =~= seq!['-'] + decimal((-(n as int)) as nat));
        } else {
            push_decimal(&mut s, n as u64);
            assert(s@ =~= decimal(n as nat));
        }
        Json::Str(s)
    }
}

/// An arbitrary-precision decimal scalar held as its text, sent as a string.
#[derive(Debug)]
pub struct Bigdecimal(pub String);

impl Bigdecimal {
    /// The value as it is sent: its text as a JSON string.
    pub fn to_json(&self) -> (j: Json)
        ensures
            j@ == JsonV::Str(self.0@),
    {
        Json::Str(self.0.clone())
    }
}

/// An operation variable: a JSON value with its declared GraphQL type, for
/// the engine to type-check. It is sent as the value alone.
#[derive(Debug)]
pub struct Variable {
    value: Json,
    gql_type: String,
}

impl Variable {
    /// The value sent for the variable.
    pub closed spec fn spec_value(&self) -> JsonV {
        self.value@
    }

    /// The declared GraphQL type.
    pub closed spec fn spec_gql_type(&self) -> Seq<char> {
        self.gql_type@
    }

    /// Wraps `value` with its declared GraphQL type.
    pub fn new(value: Json, gql_type: String) -> (v: Variable)
        ensures
            v.spec_value() == value@,
            v.spec_gql_type() == gql_type@,
    {
        Variable { value, gql_type }
    }

    /// The same as [`Variable::new`], named after the constructor for plain
    /// values.
    pub fn var(value: Json, gql_type: String) -> (v: Variable)
        ensures
            v.spec_value() == value@,
            v.spec_gql_type() == gql_type@,
    {
        Variable::new(value, gql_type)
    }

    /// The same as [`Variable::new`], named after the constructor for
    /// optional values.
    pub fn var_ptr(value: Json, gql_type: String) -> (v: Variable)
        ensures
            v.spec_value() == value@,
            v.spec_gql_type() == gql_type@,
    {
        Variable::new(value, gql_type)
    }

    /// The declared GraphQL type.
    pub fn gql_type(&self) -> (t: &str)
        ensures
            t@ == self.spec_gql_type(),
    {
        self.gql_type.as_str()
    }

    /// The value sent for the variable.
    pub fn value(&self) -> (j: &Json)
        ensures
            j@ == self.spec_value(),
    {
        &self.value
    }
}

} // verus!
