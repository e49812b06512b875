//! A JSON value model for filter documents and their arguments.

use vstd::prelude::*;

verus! {

/// A JSON value. Numbers keep their JSON text; objects keep their members in
/// insertion order.
#[derive(Debug)]
pub enum Json {
    /// `null`.
    Null,
    /// `true` or `false`.
    Bool(bool),
    /// A number, as its JSON text.
    Number(String),
    /// A string.
    Str(String),
    /// An array.
    Array(Vec<Json>),
    /// An object: its members in insertion order.
    Object(Vec<(String, Json)>),
}

/// The mathematical view of a JSON value.
pub enum JsonV {
    /// `null`.
    Null,
    /// `true` or `false`.
    Bool(bool),
    /// A number, as its JSON text.
    Number(Seq<char>),
    /// A string.
    Str(Seq<char>),
    /// An array.
    Array(Seq<JsonV>),
    /// An object: its members in insertion order.
    Object(Seq<(Seq<char>, JsonV)>),
}

/// The view of a JSON value.
pub open spec fn json_view(j: Json) -> JsonV
    decreases j,
{
    match j {
        Json::Null => JsonV::Null,
        Json::Bool(b) => JsonV::Bool(b),
        Json::Number(n) => JsonV::Number(n@),
        Json::Str(s) => JsonV::Str(s@),
        Json::Array(items) => JsonV::Array(item_views(items@)),
        Json::Object(members) => JsonV::Object(member_views(members@)),
    }
}

/// The views of a sequence of JSON values.
pub open spec fn item_views(s: Seq<Json>) -> Seq<JsonV>
    decreases s,
{
    if s.len() == 0 {
        Seq::empty()
    } else {
        item_views(s.drop_last()).push(json_view(s.last()))
    }
}

/// The views of a sequence of object members.
pub open spec fn member_views(s: Seq<(String, Json)>) -> Seq<(Seq<char>, JsonV)>
    decreases s,
{
    if s.len() == 0 {
        Seq::empty()
    } else {
        member_views(s.drop_last()).push((s.last().0@, json_view(s.last().1)))
    }
}

impl View for Json {
    type V = JsonV;

    open spec fn view(&self) -> JsonV {
        json_view(*self)
    }
}

impl Json {
    /// A deep copy of this value.
    #[verifier::loop_isolation(false)]
    pub fn deep_clone(&self) -> (c: Json)
        ensures
            c@ == self@,
        decreases self,
    {
        match self {
            Json::Null => Json::Null,
            Json::Bool(b) => Json::Bool(*b),
            Json::Number(n) => Json::Number(n.clone()),
            Json::Str(s) => Json::Str(s.clone()),
            Json::Array(items) => {
                let mut out: Vec<Json> = Vec::new();
                let mut i: usize = 0;
                while i < items.len()
                    invariant
                        i <= items@.len(),
                        item_views(out@) == item_views(items@.take(i as int)),
                    decreases items@.len() - i,
                {
                    proof {
                        assert(decreases_to!(*self => *items));
                        assert(decreases_to!(*items => items@));
                        assert(decreases_to!(items@ => items@[i as int]));
                    }
                    let ghost before = out@;
                    out.push(items[i].deep_clone());
                    proof {
                        assert(out@.drop_last() =~= before);
                        assert(items@.take(i + 1).drop_last() =~= items@.take(i as int));
                    }
                    i += 1;
                }
                assert(items@.take(i as int) =~= items@);
                Json::Array(out)
            },
            Json::Object(members) => {
                let mut out: Vec<(String, Json)> = Vec::new();
                let mut i: usize = 0;
                while i < members.len()
                    invariant
                        i <= members@.len(),
                        member_views(out@) == member_views(members@.take(i as int)),
                    decreases members@.len() - i,
                {
                    proof {
                        assert(decreases_to!(*self => *members));
                        assert(decreases_to!(*members => members@));
                        assert(decreases_to!(members@ => members@[i as int]));
                        assert(decreases_to!(members@[i as int] => members@[i as int].1));
                    }
                    let v = members[i].1.deep_clone();
                    let ghost before = out@;
                    out.push((members[i].0.clone(), v));
                    proof {
                        assert(out@.drop_last() =~= before);
                        assert(members@.take(i + 1).drop_last() =~= members@.take(i as int));
                    }
                    i += 1;
                }
                assert(members@.take(i as int) =~= members@);
                Json::Object(out)
            },
        }
    }
}

/// An object with one member.
pub open spec fn single(key: Seq<char>, value: JsonV) -> JsonV {
    JsonV::Object(seq![(key, value)])
}

/// Builds an object with one member.
pub fn object1(key: String, value: Json) -> (j: Json)
    ensures
        j@ == single(key@, value@),
{
    let mut members: Vec<(String, Json)> = Vec::new();
    members.push((key, value));
    assert(members@.drop_last() =~= Seq::<(String, Json)>::empty());
    assert(member_views(Seq::<(String, Json)>::empty()) == Seq::<(Seq<char>, JsonV)>::empty());
    assert(member_views(members@) =~= seq![(key@, value@)]);
    Json::Object(members)
}

} // verus!
