//! Keyset pagination and the request builders for operation arguments.
//!
//! Offset/limit paging is unstable under concurrent inserts; keyset paging
//! orders by a column and asks for rows strictly after the last one seen,
//! which is stable because the cursor is a value in the data.

use vstd::prelude::*;
use crate::graphql::columns::{OrderBy, OrderTerm};
use crate::graphql::json::{Json, JsonV};
use crate::graphql::predicate::{Predicate, and, column_filter, combined, pred, predicate_views};

verus! {

/// The keyset operator for a direction: rows after the cursor are greater
/// in ascending order and smaller in descending order.
pub open spec fn keyset_op(d: OrderBy) -> Seq<char> {
    if d == OrderBy::Desc { "_lt"@ } else { "_gt"@ }
}

/// Restricts a list to rows that sort strictly after `last` for the order
/// term: `col _gt last` when ascending, `col _lt last` when descending.
/// `last` is the order column's value in the last row of the previous page.
pub fn after(term: &OrderTerm, last: Json) -> (p: Predicate)
    ensures
        p@ == column_filter(term.spec_col(), keyset_op(term.spec_dir()), last@),
{
    let op = if term.dir() == OrderBy::Desc { "_lt" } else { "_gt" };
    pred(term.col(), op, last)
}

/// The views of a list of order terms: column and direction.
pub open spec fn term_views(ts: Seq<OrderTerm>) -> Seq<(Seq<char>, OrderBy)> {
    ts.map_values(|t: OrderTerm| (t.spec_col(), t.spec_dir()))
}

/// The optional arguments shared by list, find, aggregate and live-list
/// operations: a where filter, result ordering, and limit/offset paging.
#[derive(Debug)]
pub struct ListRequest {
    limit: i64,
    offset: i64,
    order_by: Vec<OrderTerm>,
    where_: Predicate,
}

impl Default for ListRequest {
    fn default() -> (r: Self)
        ensures
            r.spec_limit() == 0,
            r.spec_offset() == 0,
            r.spec_order_by() == Seq::<(Seq<char>, OrderBy)>::empty(),
            r.spec_where() == JsonV::Null,
    {
        let r = ListRequest { limit: 0, offset: 0, order_by: Vec::new(), where_: Predicate::default() };
        assert(term_views(r.order_by@) =~= Seq::<(Seq<char>, OrderBy)>::empty());
        r
    }
}

impl ListRequest {
    /// The row limit.
    pub closed spec fn spec_limit(&self) -> i64 {
        self.limit
    }

    /// The row offset.
    pub closed spec fn spec_offset(&self) -> i64 {
        self.offset
    }

    /// The result ordering.
    pub closed spec fn spec_order_by(&self) -> Seq<(Seq<char>, OrderBy)> {
        term_views(self.order_by@)
    }

    /// The row filter.
    pub closed spec fn spec_where(&self) -> JsonV {
        self.where_@
    }

    /// Sets the maximum number of rows to return.
    pub fn limit(&mut self, v: i64) -> (r: &mut Self)
        ensures
            r.spec_limit() == v,
            r.spec_offset() == old(self).spec_offset(),
            r.spec_order_by() == old(self).spec_order_by(),
            r.spec_where() == old(self).spec_where(),
            *final(self) == *final(r),
    {
        self.limit = v;
        self
    }

    /// Sets how many leading rows to skip.
    pub fn offset(&mut self, v: i64) -> (r: &mut Self)
        ensures
            r.spec_offset() == v,
            r.spec_limit() == old(self).spec_limit(),
            r.spec_order_by() == old(self).spec_order_by(),
            r.spec_where() == old(self).spec_where(),
            *final(self) == *final(r),
    {
        self.offset = v;
        self
    }

    /// Sets the result ordering.
    pub fn order_by(&mut self, v: Vec<OrderTerm>) -> (r: &mut Self)
        ensures
            r.spec_order_by() == term_views(v@),
            r.spec_limit() == old(self).spec_limit(),
            r.spec_offset() == old(self).spec_offset(),
            r.spec_where() == old(self).spec_where(),
            *final(self) == *final(r),
    {
        self.order_by = v;
        self
    }

    /// Sets the row filter predicate.
    pub fn where_(&mut self, v: Predicate) -> (r: &mut Self)
        ensures
            r.spec_where() == v@,
            r.spec_limit() == old(self).spec_limit(),
            r.spec_offset() == old(self).spec_offset(),
            r.spec_order_by() == old(self).spec_order_by(),
            *final(self) == *final(r),
    {
        self.where_ = v;
        self
    }

    /// Turns this request into the next keyset page: orders by `term` and
    /// keeps only rows after `last` (see [`after`]), composing with any
    /// filter already set through `and`.
    pub fn keyset_after(&mut self, term: OrderTerm, last: Json) -> (r: &mut Self)
        ensures
            r.spec_order_by() == old(self).spec_order_by().push((term.spec_col(), term.spec_dir())),
            old(self).spec_where() == JsonV::Null ==> r.spec_where()
                == column_filter(term.spec_col(), keyset_op(term.spec_dir()), last@),
            old(self).spec_where() != JsonV::Null ==> r.spec_where()
                == combined("_and"@, seq![old(self).spec_where(),
                    column_filter(term.spec_col(), keyset_op(term.spec_dir()), last@)]),
            r.spec_limit() == old(self).spec_limit(),
            r.spec_offset() == old(self).spec_offset(),
            *final(self) == *final(r),
    {
        let ks = after(&term, last);
        let ghost tv = (term.spec_col(), term.spec_dir());
        let ghost before = self.order_by@;
        self.order_by.push(term);
        assert(term_views(self.order_by@) =~= term_views(before).push(tv));
        if self.where_.is_omitted() {
            self.where_ = ks;
        } else {
            let mut current = Predicate::default();
            std::mem::swap(&mut current, &mut self.where_);
            let ghost ks_view = ks@;
            let ghost cur_view = current@;
            let parts = [current, ks];
            assert(predicate_views(parts@) =~= seq![cur_view, ks_view]);
            self.where_ = and(&parts);
        }
        self
    }

    /// The configured row limit.
    pub fn get_limit(&self) -> (v: i64)
        ensures
            v == self.spec_limit(),
    {
        self.limit
    }

    /// The configured row offset.
    pub fn get_offset(&self) -> (v: i64)
        ensures
            v == self.spec_offset(),
    {
        self.offset
    }

    /// The configured result ordering.
    pub fn get_order_by(&self) -> (v: &[OrderTerm])
        ensures
            term_views(v@) == self.spec_order_by(),
    {
        self.order_by.as_slice()
    }

    /// The configured row filter predicate.
    pub fn get_where(&self) -> (p: &Predicate)
        ensures
            p@ == self.spec_where(),
    {
        &self.where_
    }
}

/// The optional arguments for an insert: a post-check filter the inserted
/// rows must satisfy.
#[derive(Debug)]
pub struct CreateRequest {
    post_check: Predicate,
}

impl Default for CreateRequest {
    fn default() -> (r: Self)
        ensures
            r.spec_post_check() == JsonV::Null,
    {
        CreateRequest { post_check: Predicate::default() }
    }
}

impl CreateRequest {
    /// The post-insert guard.
    pub closed spec fn spec_post_check(&self) -> JsonV {
        self.post_check@
    }

    /// Sets the post-insert guard predicate.
    pub fn post_check(&mut self, v: Predicate) -> (r: &mut Self)
        ensures
            r.spec_post_check() == v@,
            *final(self) == *final(r),
    {
        self.post_check = v;
        self
    }

    /// The configured post-insert guard.
    pub fn get_post_check(&self) -> (p: &Predicate)
        ensures
            p@ == self.spec_post_check(),
    {
        &self.post_check
    }
}

/// The optional arguments for an update: a pre-check guard the row must
/// match before the write (the basis of optimistic concurrency) and a
/// post-check guard it must match after.
#[derive(Debug)]
pub struct UpdateRequest {
    pre_check: Predicate,
    post_check: Predicate,
}

impl Default for UpdateRequest {
    fn default() -> (r: Self)
        ensures
            r.spec_pre_check() == JsonV::Null,
            r.spec_post_check() == JsonV::Null,
    {
        UpdateRequest { pre_check: Predicate::default(), post_check: Predicate::default() }
    }
}

impl UpdateRequest {
    /// The pre-update guard.
    pub closed spec fn spec_pre_check(&self) -> JsonV {
        self.pre_check@
    }

    /// The post-update guard.
    pub closed spec fn spec_post_check(&self) -> JsonV {
        self.post_check@
    }

    /// Sets the pre-update guard predicate (for example an etag equality).
    pub fn pre_check(&mut self, v: Predicate) -> (r: &mut Self)
        ensures
            r.spec_pre_check() == v@,
            r.spec_post_check() == old(self).spec_post_check(),
            *final(self) == *final(r),
    {
        self.pre_check = v;
        self
    }

    /// Sets the post-update guard predicate.
    pub fn post_check(&mut self, v: Predicate) -> (r: &mut Self)
        ensures
            r.spec_post_check() == v@,
            r.spec_pre_check() == old(self).spec_pre_check(),
            *final(self) == *final(r),
    {
        self.post_check = v;
        self
    }

    /// The configured pre-update guard.
    pub fn get_pre_check(&self) -> (p: &Predicate)
        ensures
            p@ == self.spec_pre_check(),
    {
        &self.pre_check
    }

    /// The configured post-update guard.
    pub fn get_post_check(&self) -> (p: &Predicate)
        ensures
            p@ == self.spec_post_check(),
    {
        &self.post_check
    }
}

/// The optional arguments for a delete: a pre-check guard the row must
/// match before removal.
#[derive(Debug)]
pub struct DeleteRequest {
    pre_check: Predicate,
}

impl Default for DeleteRequest {
    fn default() -> (r: Self)
        ensures
            r.spec_pre_check() == JsonV::Null,
    {
        DeleteRequest { pre_check: Predicate::default() }
    }
}

impl DeleteRequest {
    /// The pre-delete guard.
    pub closed spec fn spec_pre_check(&self) -> JsonV {
        self.pre_check@
    }

    /// Sets the pre-delete guard predicate.
    pub fn pre_check(&mut self, v: Predicate) -> (r: &mut Self)
        ensures
            r.spec_pre_check() == v@,
            *final(self) == *final(r),
    {
        self.pre_check = v;
        self
    }

    /// The configured pre-delete guard.
    pub fn get_pre_check(&self) -> (p: &Predicate)
        ensures
            p@ == self.spec_pre_check(),
    {
        &self.pre_check
    }
}

} // verus!
