//! Generated handles for string, number, boolean, JSON and enum columns.
//!
//! Each handle names one column; its methods build the [`Predicate`] or
//! [`OrderTerm`] for that column.

use std::marker::PhantomData;
use vstd::prelude::*;
use crate::graphql::columns::{OrderBy, OrderTerm};
use crate::graphql::json::{Json, JsonV, item_views};
use crate::graphql::predicate::{Predicate, column_filter, pred};
use crate::graphql::scalars::{Int64, signed_decimal};
use crate::text::owned;

verus! {

/// The JSON string values of a list of texts.
pub open spec fn str_items(vs: Seq<&str>) -> Seq<JsonV> {
    vs.map_values(|s: &str| JsonV::Str(s@))
}

/// The JSON values of a list of 64-bit integers.
pub open spec fn int64_items(vs: Seq<Int64>) -> Seq<JsonV> {
    vs.map_values(|v: Int64| JsonV::Str(signed_decimal(v.0 as int)))
}

fn str_array(vs: &[&str]) -> (j: Json)
    ensures
        j@ == JsonV::Array(str_items(vs@)),
{
    let mut items: Vec<Json> = Vec::new();
    let mut i: usize = 0;
    while i < vs.len()
        invariant
            i <= vs@.len(),
            item_views(items@) == str_items(vs@).take(i as int),
        decreases vs@.len() - i,
    {
        let ghost before = items@;
        let j = Json::Str(owned(vs[i]));
        assert(j@ == JsonV::Str(vs@[i as int]@));
        items.push(j);
        proof {
            assert(items@.drop_last() =~= before);
            assert(str_items(vs@).take(i + 1) =~= str_items(vs@).take(i as int).push(JsonV::Str(vs@[i as int]@)));
        }
        i += 1;
    }
    assert(str_items(vs@).take(i as int) =~= str_items(vs@));
    Json::Array(items)
}

fn int64_array(vs: &[Int64]) -> (j: Json)
    ensures
        j@ == JsonV::Array(int64_items(vs@)),
{
    let mut items: Vec<Json> = Vec::new();
    let mut i: usize = 0;
    while i < vs.len()
        invariant
            i <= vs@.len(),
            item_views(items@) == int64_items(vs@).take(i as int),
        decreases vs@.len() - i,
    {
        let ghost before = items@;
        items.push(vs[i].to_json());
        proof {
            assert(items@.drop_last() =~= before);
            assert(int64_items(vs@).take(i + 1) =~= int64_items(vs@).take(i as int).push(
                JsonV::Str(signed_decimal(vs@[i as int].0 as int)),
            ));
        }
        i += 1;
    }
    assert(int64_items(vs@).take(i as int) =~= int64_items(vs@));
    Json::Array(items)
}

/// The values of a list of JSON values.
pub open spec fn json_items(vs: Seq<Json>) -> Seq<JsonV> {
    item_views(vs)
}

/// A handle for a string-like column (text, id, timestamp). Ordered
/// comparisons treat the value lexically, which is also correct for ISO-8601
/// timestamps.
pub struct StringField {
    /// The column's wire name.
    pub col: &'static str,
}

impl StringField {    /// Matches rows where the column equals `v`.
    pub fn eq(&self, v: &str) -> (p: Predicate)
        ensures
            p@ == column_filter(self.col@, "_eq"@, JsonV::Str(v@)),
    {
        pred(self.col, "_eq", Json::Str(owned(v)))
    }
    /// Matches rows where the column does not equal `v`.
    pub fn neq(&self, v: &str) -> (p: Predicate)
        ensures
            p@ == column_filter(self.col@, "_neq"@, JsonV::Str(v@)),
    {
        pred(self.col, "_neq", Json::Str(owned(v)))
    }
    /// Matches rows where the column is greater than `v`.
    pub fn gt(&self, v: &str) -> (p: Predicate)
        ensures
            p@ == column_filter(self.col@, "_gt"@, JsonV::Str(v@)),
    {
        pred(self.col, "_gt", Json::Str(owned(v)))
    }
    /// Matches rows where the column is greater than or equal to `v`.
    pub fn gte(&self, v: &str) -> (p: Predicate)
        ensures
            p@ == column_filter(self.col@, "_gte"@, JsonV::Str(v@)),
    {
        pred(self.col, "_gte", Json::Str(owned(v)))
    }
    /// Matches rows where the column is less than `v`.
    pub fn lt(&self, v: &str) -> (p: Predicate)
        ensures
            p@ == column_filter(self.col@, "_lt"@, JsonV::Str(v@)),
    {
        pred(self.col, "_lt", Json::Str(owned(v)))
    }
    /// Matches rows where the column is less than or equal to `v`.
    pub fn lte(&self, v: &str) -> (p: Predicate)
        ensures
            p@ == column_filter(self.col@, "_lte"@, JsonV::Str(v@)),
    {
        pred(self.col, "_lte", Json::Str(owned(v)))
    }
    /// Matches rows where the column matches the SQL LIKE pattern `v`.
    pub fn like(&self, v: &str) -> (p: Predicate)
        ensures
            p@ == column_filter(self.col@, "_like"@, JsonV::Str(v@)),
    {
        pred(self.col, "_like", Json::Str(owned(v)))
    }
    /// Matches rows where the column matches the case-insensitive LIKE pattern `v`.
    pub fn ilike(&self, v: &str) -> (p: Predicate)
        ensures
            p@ == column_filter(self.col@, "_ilike"@, JsonV::Str(v@)),
    {
        pred(self.col, "_ilike", Json::Str(owned(v)))
    }
    /// Matches rows where the column matches the regular expression `v`.
    pub fn regex(&self, v: &str) -> (p: Predicate)
        ensures
            p@ == column_filter(self.col@, "_regex"@, JsonV::Str(v@)),
    {
        pred(self.col, "_regex", Json::Str(owned(v)))
    }
    /// Matches rows where the column is one of `vs`.
    pub fn is_in(&self, vs: &[&str]) -> (p: Predicate)
        ensures
            p@ == column_filter(self.col@, "_in"@, JsonV::Array(str_items(vs@))),
    {
        pred(self.col, "_in", str_array(vs))
    }

    /// Matches rows where the column is (`v = true`) or is not (`v = false`) null.
    pub fn is_null(&self, v: bool) -> (p: Predicate)
        ensures
            p@ == column_filter(self.col@, "_is_null"@, JsonV::Bool(v)),
    {
        pred(self.col, "_is_null", Json::Bool(v))
    }

    /// Orders results by this column ascending.
    pub fn asc(&self) -> (t: OrderTerm)
        ensures
            t.spec_col() == self.col@,
            t.spec_dir() == OrderBy::Asc,
    {
        OrderTerm::new(self.col, OrderBy::Asc)
    }

    /// Orders results by this column descending.
    pub fn desc(&self) -> (t: OrderTerm)
        ensures
            t.spec_col() == self.col@,
            t.spec_dir() == OrderBy::Desc,
    {
        OrderTerm::new(self.col, OrderBy::Desc)
    }
}

/// A handle for a 64-bit integer column; values are sent as strings.
pub struct Int64Field {
    /// The column's wire name.
    pub col: &'static str,
}

impl Int64Field {    /// Matches rows where the column equals `v`.
    pub fn eq(&self, v: Int64) -> (p: Predicate)
        ensures
            p@ == column_filter(self.col@, "_eq"@, JsonV::Str(signed_decimal(v.0 as int))),
    {
        pred(self.col, "_eq", v.to_json())
    }
    /// Matches rows where the column does not equal `v`.
    pub fn neq(&self, v: Int64) -> (p: Predicate)
        ensures
            p@ == column_filter(self.col@, "_neq"@, JsonV::Str(signed_decimal(v.0 as int))),
    {
        pred(self.col, "_neq", v.to_json())
    }
    /// Matches rows where the column is greater than `v`.
    pub fn gt(&self, v: Int64) -> (p: Predicate)
        ensures
            p@ == column_filter(self.col@, "_gt"@, JsonV::Str(signed_decimal(v.0 as int))),
    {
        pred(self.col, "_gt", v.to_json())
    }
    /// Matches rows where the column is greater than or equal to `v`.
    pub fn gte(&self, v: Int64) -> (p: Predicate)
        ensures
            p@ == column_filter(self.col@, "_gte"@, JsonV::Str(signed_decimal(v.0 as int))),
    {
        pred(self.col, "_gte", v.to_json())
    }
    /// Matches rows where the column is less than `v`.
    pub fn lt(&self, v: Int64) -> (p: Predicate)
        ensures
            p@ == column_filter(self.col@, "_lt"@, JsonV::Str(signed_decimal(v.0 as int))),
    {
        pred(self.col, "_lt", v.to_json())
    }
    /// Matches rows where the column is less than or equal to `v`.
    pub fn lte(&self, v: Int64) -> (p: Predicate)
        ensures
            p@ == column_filter(self.col@, "_lte"@, JsonV::Str(signed_decimal(v.0 as int))),
    {
        pred(self.col, "_lte", v.to_json())
    }
    /// Matches rows where the column is one of `vs`.
    pub fn is_in(&self, vs: &[Int64]) -> (p: Predicate)
        ensures
            p@ == column_filter(self.col@, "_in"@, JsonV::Array(int64_items(vs@))),
    {
        pred(self.col, "_in", int64_array(vs))
    }

    /// Matches rows where the column is (`v = true`) or is not (`v = false`) null.
    pub fn is_null(&self, v: bool) -> (p: Predicate)
        ensures
            p@ == column_filter(self.col@, "_is_null"@, JsonV::Bool(v)),
    {
        pred(self.col, "_is_null", Json::Bool(v))
    }

    /// Orders results by this column ascending.
    pub fn asc(&self) -> (t: OrderTerm)
        ensures
            t.spec_col() == self.col@,
            t.spec_dir() == OrderBy::Asc,
    {
        OrderTerm::new(self.col, OrderBy::Asc)
    }

    /// Orders results by this column descending.
    pub fn desc(&self) -> (t: OrderTerm)
        ensures
            t.spec_col() == self.col@,
            t.spec_dir() == OrderBy::Desc,
    {
        OrderTerm::new(self.col, OrderBy::Desc)
    }
}

/// A handle for a floating-point column. Only ordering is built here: its
/// comparison filters carry floating-point values.
pub struct FloatField {
    /// The column's wire name.
    pub col: &'static str,
}

impl FloatField {
    /// Orders results by this column ascending.
    pub fn asc(&self) -> (t: OrderTerm)
        ensures
            t.spec_col() == self.col@,
            t.spec_dir() == OrderBy::Asc,
    {
        OrderTerm::new(self.col, OrderBy::Asc)
    }

    /// Orders results by this column descending.
    pub fn desc(&self) -> (t: OrderTerm)
        ensures
            t.spec_col() == self.col@,
            t.spec_dir() == OrderBy::Desc,
    {
        OrderTerm::new(self.col, OrderBy::Desc)
    }
}

/// A handle for a boolean column.
pub struct BoolField {
    /// The column's wire name.
    pub col: &'static str,
}

impl BoolField {    /// Matches rows where the column equals `v`.
    pub fn eq(&self, v: bool) -> (p: Predicate)
        ensures
            p@ == column_filter(self.col@, "_eq"@, JsonV::Bool(v)),
    {
        pred(self.col, "_eq", Json::Bool(v))
    }
    /// Matches rows where the column does not equal `v`.
    pub fn neq(&self, v: bool) -> (p: Predicate)
        ensures
            p@ == column_filter(self.col@, "_neq"@, JsonV::Bool(v)),
    {
        pred(self.col, "_neq", Json::Bool(v))
    }

    /// Matches rows where the column is (`v = true`) or is not (`v = false`) null.
    pub fn is_null(&self, v: bool) -> (p: Predicate)
        ensures
            p@ == column_filter(self.col@, "_is_null"@, JsonV::Bool(v)),
    {
        pred(self.col, "_is_null", Json::Bool(v))
    }

    /// Orders results by this column ascending.
    pub fn asc(&self) -> (t: OrderTerm)
        ensures
            t.spec_col() == self.col@,
            t.spec_dir() == OrderBy::Asc,
    {
        OrderTerm::new(self.col, OrderBy::Asc)
    }

    /// Orders results by this column descending.
    pub fn desc(&self) -> (t: OrderTerm)
        ensures
            t.spec_col() == self.col@,
            t.spec_dir() == OrderBy::Desc,
    {
        OrderTerm::new(self.col, OrderBy::Desc)
    }
}

/// A handle for a JSON/JSONB column; filtering is limited to equality and
/// null checks.
pub struct JSONField {
    /// The column's wire name.
    pub col: &'static str,
}

impl JSONField {
    /// Matches rows where the column equals the JSON value `v`.
    pub fn eq(&self, v: Json) -> (p: Predicate)
        ensures
            p@ == column_filter(self.col@, "_eq"@, v@),
    {
        pred(self.col, "_eq", v)
    }

    /// Matches rows where the column is (`v = true`) or is not (`v = false`) null.
    pub fn is_null(&self, v: bool) -> (p: Predicate)
        ensures
            p@ == column_filter(self.col@, "_is_null"@, JsonV::Bool(v)),
    {
        pred(self.col, "_is_null", Json::Bool(v))
    }
}

/// A handle for an enum column, parameterized by the enum type. Operators
/// take each value in its JSON form.
pub struct EnumField<E> {
    /// The column's wire name.
    pub col: &'static str,
    /// Ties the handle to its enum type.
    pub _marker: PhantomData<E>,
}

impl<E> EnumField<E> {
    /// A handle for the enum column `col`.
    pub fn new(col: &'static str) -> (f: Self)
        ensures
            f.col == col,
    {
        EnumField { col, _marker: PhantomData }
    }
    /// Matches rows where the column equals the value `v`.
    pub fn eq(&self, v: Json) -> (p: Predicate)
        ensures
            p@ == column_filter(self.col@, "_eq"@, v@),
    {
        pred(self.col, "_eq", v)
    }
    /// Matches rows where the column does not equal the value `v`.
    pub fn neq(&self, v: Json) -> (p: Predicate)
        ensures
            p@ == column_filter(self.col@, "_neq"@, v@),
    {
        pred(self.col, "_neq", v)
    }
    /// Matches rows where the column is one of the values `vs`.
    pub fn is_in(&self, vs: Vec<Json>) -> (p: Predicate)
        ensures
            p@ == column_filter(self.col@, "_in"@, JsonV::Array(json_items(vs@))),
    {
        pred(self.col, "_in", Json::Array(vs))
    }

    /// Matches rows where the column is (`v = true`) or is not (`v = false`) null.
    pub fn is_null(&self, v: bool) -> (p: Predicate)
        ensures
            p@ == column_filter(self.col@, "_is_null"@, JsonV::Bool(v)),
    {
        pred(self.col, "_is_null", Json::Bool(v))
    }

    /// Orders results by this column ascending.
    pub fn asc(&self) -> (t: OrderTerm)
        ensures
            t.spec_col() == self.col@,
            t.spec_dir() == OrderBy::Asc,
    {
        OrderTerm::new(self.col, OrderBy::Asc)
    }

    /// Orders results by this column descending.
    pub fn desc(&self) -> (t: OrderTerm)
        ensures
            t.spec_col() == self.col@,
            t.spec_dir() == OrderBy::Desc,
    {
        OrderTerm::new(self.col, OrderBy::Desc)
    }
}

} // verus!
