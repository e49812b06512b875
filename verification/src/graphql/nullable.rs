//! A three-state value for masked update inputs.

use vstd::prelude::*;
use crate::graphql::json::{object1, single, Json, JsonV};

verus! {

#[derive(Debug)]
enum NullableState<T> {
    Unset,
    Null,
    Value(T),
}

/// A three-state value for masked update inputs. A column field can be:
///
/// - unset: the default; the patch omits it, so the column is left unchanged;
/// - null: [`Nullable::null`]; the column is cleared to SQL NULL;
/// - value: [`Nullable::value`]; the column is written to `v`, including
///   `v`'s zero value.
///
/// A plain field cannot tell "leave unchanged" from "clear to null".
#[derive(Debug)]
pub struct Nullable<T>(NullableState<T>);

impl<T> Nullable<T> {
    /// The instruction held: `None` when unset, `Some(None)` to clear to
    /// null, `Some(Some(v))` to write `v`.
    pub closed spec fn spec_state(&self) -> Option<Option<T>> {
        match self.0 {
            NullableState::Unset => None,
            NullableState::Null => Some(None),
            NullableState::Value(v) => Some(Some(v)),
        }
    }

    /// Sets the column to `v`, which may be its type's zero value.
    pub fn value(v: T) -> (n: Self)
        ensures
            n.spec_state() == Some(Some(v)),
    {
        Nullable(NullableState::Value(v))
    }

    /// Clears the column to SQL NULL.
    pub fn null() -> (n: Self)
        ensures
            n.spec_state() == Some(None::<T>),
    {
        Nullable(NullableState::Null)
    }

    /// The default, unset value, omitted so the column is left unchanged.
    pub fn unset() -> (n: Self)
        ensures
            n.spec_state() is None,
    {
        Nullable(NullableState::Unset)
    }

    /// Whether the field carries an instruction (a value or an explicit null).
    pub fn is_set(&self) -> (b: bool)
        ensures
            b == (self.spec_state() is Some),
    {
        match self.0 {
            NullableState::Unset => false,
            _ => true,
        }
    }

    /// Whether the field clears the column to NULL.
    pub fn is_null(&self) -> (b: bool)
        ensures
            b == (self.spec_state() == Some(None::<T>)),
    {
        match self.0 {
            NullableState::Null => true,
            _ => false,
        }
    }

    /// The held value, or `None` when unset or null.
    pub fn get(&self) -> (r: Option<&T>)
        ensures
            self.spec_state() matches Some(Some(v)) ==> r == Some(&v),
            !(self.spec_state() matches Some(Some(_))) ==> r is None,
    {
        match &self.0 {
            NullableState::Value(v) => Some(v),
            _ => None,
        }
    }
}

impl<T> Default for Nullable<T> {
    fn default() -> (n: Self)
        ensures
            n.spec_state() is None,
    {
        Nullable(NullableState::Unset)
    }
}

/// The update-patch entry of an instructed field: `{"set": value}`, where no
/// value clears the column with `{"set": null}`.
pub fn set_entry(value: Option<Json>) -> (j: Json)
    ensures
        j@ == single("set"@, match value { Some(v) => v@, None => JsonV::Null }),
{
    let v = match value {
        Some(v) => v,
        None => Json::Null,
    };
    object1(String::from_str("set"), v)
}

} // verus!
