//! Filter expressions for a resource's find/where argument.

use vstd::prelude::*;
use crate::graphql::json::{Json, JsonV, item_views, object1, single};
use crate::text::owned;

verus! {

/// A filter expression for a resource's where argument, built from the
/// per-resource field handles and combined with [`and`], [`or`] and [`not`].
///
/// The default predicate is empty (`null`); generated code omits it from the
/// operation entirely rather than sending an empty object.
#[derive(Debug)]
pub struct Predicate(Json);

impl View for Predicate {
    type V = JsonV;

    closed spec fn view(&self) -> JsonV {
        self.0@
    }
}

impl Default for Predicate {
    fn default() -> (p: Self)
        ensures
            p@ == JsonV::Null,
    {
        Predicate(Json::Null)
    }
}

impl Clone for Predicate {
    fn clone(&self) -> (p: Self)
        ensures
            p@ == self@,
    {
        Predicate(self.0.deep_clone())
    }
}

impl Predicate {
    /// A predicate holding this filter document.
    pub fn from_json(value: Json) -> (p: Predicate)
        ensures
            p@ == value@,
    {
        Predicate(value)
    }

    /// The filter document, as it is sent.
    pub fn to_json(&self) -> (j: Json)
        ensures
            j@ == self@,
    {
        self.0.deep_clone()
    }

    /// Takes the filter document out.
    pub fn into_json(self) -> (j: Json)
        ensures
            j@ == self@,
    {
        self.0
    }

    /// Whether this is the default, empty predicate that generated code
    /// omits from the operation entirely.
    pub fn is_omitted(&self) -> (b: bool)
        ensures
            b == (self@ == JsonV::Null),
    {
        match &self.0 {
            Json::Null => true,
            _ => false,
        }
    }
}

/// The single-column filter `{col: {op: v}}`.
pub open spec fn column_filter(col: Seq<char>, op: Seq<char>, v: JsonV) -> JsonV {
    single(col, single(op, v))
}

/// Builds a single-column predicate `{col: {op: v}}`, the shared
/// constructor behind every field handle's operators.
pub fn pred(col: &str, op: &str, v: Json) -> (p: Predicate)
    ensures
        p@ == column_filter(col@, op@, v@),
{
    Predicate(object1(owned(col), object1(owned(op), v)))
}

/// The combination `{op: [p1, p2, ...]}`, or the empty predicate for none.
pub open spec fn combined(op: Seq<char>, ps: Seq<JsonV>) -> JsonV {
    if ps.len() == 0 {
        JsonV::Null
    } else {
        single(op, JsonV::Array(ps))
    }
}

/// The views of a list of predicates.
pub open spec fn predicate_views(ps: Seq<Predicate>) -> Seq<JsonV> {
    ps.map_values(|p: Predicate| p@)
}

fn combine(op: &str, ps: &[Predicate]) -> (p: Predicate)
    ensures
        p@ == combined(op@, predicate_views(ps@)),
{
    if ps.len() == 0 {
        return Predicate::default();
    }
    let mut nodes: Vec<Json> = Vec::new();
    let mut i: usize = 0;
    while i < ps.len()
        invariant
            i <= ps@.len(),
            item_views(nodes@) == predicate_views(ps@).take(i as int),
        decreases ps@.len() - i,
    {
        let ghost before = nodes@;
        nodes.push(ps[i].to_json());
        proof {
            assert(nodes@.drop_last() =~= before);
            assert(predicate_views(ps@).take(i + 1) =~= predicate_views(ps@).take(i as int).push(ps@[i as int]@));
        }
        i += 1;
    }
    assert(predicate_views(ps@).take(i as int) =~= predicate_views(ps@));
    Predicate(object1(owned(op), Json::Array(nodes)))
}

/// Combines predicates so that all must match (`{_and: [...]}`). No
/// predicates give the empty predicate.
pub fn and(ps: &[Predicate]) -> (p: Predicate)
    ensures
        p@ == combined("_and"@, predicate_views(ps@)),
        ps@.len() > 0 ==> p@ == JsonV::Object(seq![("_and"@, JsonV::Array(predicate_views(ps@)))]),
        ps@.len() == 0 ==> p@ == JsonV::Null,
{
    proof { law_only_no_predicates_combine_to_empty("_and"@, predicate_views(ps@)); }
    combine("_and", ps)
}

/// Combines predicates so that any may match (`{_or: [...]}`). No
/// predicates give the empty predicate.
pub fn or(ps: &[Predicate]) -> (p: Predicate)
    ensures
        p@ == combined("_or"@, predicate_views(ps@)),
        ps@.len() > 0 ==> p@ == JsonV::Object(seq![("_or"@, JsonV::Array(predicate_views(ps@)))]),
        ps@.len() == 0 ==> p@ == JsonV::Null,
{
    proof { law_only_no_predicates_combine_to_empty("_or"@, predicate_views(ps@)); }
    combine("_or", ps)
}

/// Negates a predicate (`{_not: ...}`).
pub fn not(p: Predicate) -> (r: Predicate)
    ensures
        r@ == single("_not"@, p@),
{
    Predicate(object1(owned("_not"), p.0))
}

/// Nests a related resource's predicate under a relationship field, so a
/// row can be filtered by its relations (`{col: ...}`).
pub fn relation(col: &str, p: Predicate) -> (r: Predicate)
    ensures
        r@ == single(col@, p@),
{
    Predicate(object1(owned(col), p.0))
}

/// Only an empty list combines into the empty predicate: a non-empty list,
/// even of one predicate, gives `{op: [p1, ..., pn]}` holding every
/// predicate in order, so the combination is never left out of the
/// operation; an empty list gives the empty predicate.
pub proof fn law_only_no_predicates_combine_to_empty(op: Seq<char>, ps: Seq<JsonV>)
    ensures
        ps.len() > 0 ==> combined(op, ps) == JsonV::Object(seq![(op, JsonV::Array(ps))]),
        ps.len() > 0 ==> combined(op, ps) != JsonV::Null,
        ps.len() == 0 ==> combined(op, ps) == JsonV::Null,
{
}

} // verus!
