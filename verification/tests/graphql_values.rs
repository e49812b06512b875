use runtime::graphql::columns::{OrderBy, OrderTerm};
use runtime::graphql::error::Error;
use runtime::graphql::fields::{BoolField, EnumField, FloatField, Int64Field, JSONField, StringField};
use runtime::graphql::json::Json;
use runtime::graphql::nullable::{set_entry, Nullable};
use runtime::graphql::predicate::{and, or, Predicate};
use runtime::graphql::requests::{CreateRequest, DeleteRequest, ListRequest, UpdateRequest};
use runtime::graphql::scalars::{Bigdecimal, Int64, Variable};

fn value(j: &Json) -> serde_json::Value {
    match j {
        Json::Null => serde_json::Value::Null,
        Json::Bool(b) => serde_json::Value::Bool(*b),
        Json::Number(n) => serde_json::from_str(n).unwrap(),
        Json::Str(s) => serde_json::Value::String(s.clone()),
        Json::Array(items) => serde_json::Value::Array(items.iter().map(value).collect()),
        Json::Object(members) => {
            let mut m = serde_json::Map::new();
            for (k, v) in members {
                m.insert(k.clone(), value(v));
            }
            serde_json::Value::Object(m)
        }
    }
}

fn parsed(text: &str) -> serde_json::Value {
    serde_json::from_str(text).unwrap()
}

fn pj(p: &Predicate) -> serde_json::Value {
    value(&p.to_json())
}

#[test]
fn nullable_distinguishes_unset_null_and_value() {
    let unset: Nullable<String> = Nullable::unset();
    let null: Nullable<String> = Nullable::null();
    let set = Nullable::value(String::new());

    assert!(!unset.is_set() && !unset.is_null() && unset.get().is_none());
    assert!(null.is_set() && null.is_null() && null.get().is_none());
    assert!(set.is_set() && !set.is_null());
    assert_eq!(set.get(), Some(&String::new()));
    assert!(!Nullable::<i64>::default().is_set());
}

#[test]
fn int64_is_sent_as_decimal_text() {
    assert_eq!(value(&Int64(-42).to_json()), parsed(r#""-42""#));
    assert_eq!(value(&Int64(i64::MIN).to_json()), parsed(r#""-9223372036854775808""#));
    assert_eq!(value(&Bigdecimal("12.50".to_string()).to_json()), parsed(r#""12.50""#));
}

#[test]
fn string_field_operators() {
    let name = StringField { col: "name" };
    assert_eq!(pj(&name.neq("a")), parsed(r#"{"name":{"_neq":"a"}}"#));
    assert_eq!(pj(&name.gte("a")), parsed(r#"{"name":{"_gte":"a"}}"#));
    assert_eq!(pj(&name.lte("a")), parsed(r#"{"name":{"_lte":"a"}}"#));
    assert_eq!(pj(&name.ilike("%b%")), parsed(r#"{"name":{"_ilike":"%b%"}}"#));
    assert_eq!(pj(&name.regex("^b")), parsed(r#"{"name":{"_regex":"^b"}}"#));
    assert_eq!(pj(&name.is_null(true)), parsed(r#"{"name":{"_is_null":true}}"#));
    assert_eq!(pj(&name.is_in(&[])), parsed(r#"{"name":{"_in":[]}}"#));
}

#[test]
fn other_field_operators() {
    let n = Int64Field { col: "n" };
    assert_eq!(pj(&n.is_in(&[Int64(1), Int64(-2)])), parsed(r#"{"n":{"_in":["1","-2"]}}"#));
    assert_eq!(pj(&n.lt(Int64(3))), parsed(r#"{"n":{"_lt":"3"}}"#));

    let b = BoolField { col: "b" };
    assert_eq!(pj(&b.eq(true)), parsed(r#"{"b":{"_eq":true}}"#));
    assert_eq!(pj(&b.neq(false)), parsed(r#"{"b":{"_neq":false}}"#));

    let j = JSONField { col: "doc" };
    let doc = Json::Object(vec![("k".to_string(), Json::Number("1".to_string()))]);
    assert_eq!(pj(&j.eq(doc)), parsed(r#"{"doc":{"_eq":{"k":1}}}"#));
    assert_eq!(pj(&j.is_null(false)), parsed(r#"{"doc":{"_is_null":false}}"#));

    let e: EnumField<u8> = EnumField::new("state");
    assert_eq!(pj(&e.eq(Json::Str("OPEN".to_string()))), parsed(r#"{"state":{"_eq":"OPEN"}}"#));
    assert_eq!(
        pj(&e.is_in(vec![Json::Str("A".to_string()), Json::Str("B".to_string())])),
        parsed(r#"{"state":{"_in":["A","B"]}}"#)
    );

    let f = FloatField { col: "x" };
    assert_eq!(value(&f.asc().to_json()), parsed(r#"{"x":"Asc"}"#));
    assert_eq!(f.desc().dir(), OrderBy::Desc);
}

#[test]
fn combinators_of_no_predicates_are_empty() {
    assert!(and(&[]).is_omitted());
    assert!(or(&[]).is_omitted());
    let id = StringField { col: "id" };
    assert_eq!(pj(&or(&[id.eq("a"), id.eq("b")])), parsed(r#"{"_or":[{"id":{"_eq":"a"}},{"id":{"_eq":"b"}}]}"#));
}

#[test]
fn list_request_builders_chain() {
    let mut r = ListRequest::default();
    r.limit(10).offset(20).order_by(vec![OrderTerm::new("a", OrderBy::Asc)]);

    assert_eq!(r.get_limit(), 10);
    assert_eq!(r.get_offset(), 20);
    assert_eq!(r.get_order_by().len(), 1);
    assert!(r.get_where().is_omitted());
}

#[test]
fn mutation_request_guards() {
    let id = StringField { col: "id" };
    let mut c = CreateRequest::default();
    c.post_check(id.eq("x"));
    assert_eq!(pj(c.get_post_check()), parsed(r#"{"id":{"_eq":"x"}}"#));

    let mut u = UpdateRequest::default();
    u.pre_check(id.eq("etag")).post_check(id.eq("after"));
    assert_eq!(pj(u.get_pre_check()), parsed(r#"{"id":{"_eq":"etag"}}"#));
    assert_eq!(pj(u.get_post_check()), parsed(r#"{"id":{"_eq":"after"}}"#));

    let mut d = DeleteRequest::default();
    assert!(d.get_pre_check().is_omitted());
    d.pre_check(id.eq("y"));
    assert!(!d.get_pre_check().is_omitted());
}

#[test]
fn variables_keep_value_and_type() {
    let v = Variable::var(Json::Str("x".to_string()), "String!".to_string());
    assert_eq!(v.gql_type(), "String!");
    assert_eq!(value(v.value()), parsed(r#""x""#));
    let p = Variable::var_ptr(Json::Null, "Int".to_string());
    assert_eq!(value(p.value()), serde_json::Value::Null);
}

#[test]
fn conflict_error_message() {
    assert_eq!(
        Error::Conflict.message(),
        "graphql: update precondition failed (no rows matched; concurrent modification)"
    );
}

#[test]
fn predicate_round_trips_its_json() {
    let doc = Json::Object(vec![("a".to_string(), Json::Bool(true))]);
    let p = Predicate::from_json(doc);
    assert_eq!(pj(&p), parsed(r#"{"a":true}"#));
    assert_eq!(value(&p.clone().into_json()), parsed(r#"{"a":true}"#));
}

/// The `set` entry of a three-state text field, `None` when unset.
fn entry(n: &Nullable<String>) -> Option<serde_json::Value> {
    if !n.is_set() {
        return None;
    }
    Some(value(&set_entry(n.get().map(|s| Json::Str(s.clone())))))
}

/// A hand-written update patch mixing three-state fields with a plain one.
struct Patch {
    display_name: Nullable<String>,
    description: Nullable<String>,
    member_count: i64,
}

impl Patch {
    fn set_columns(&self) -> serde_json::Map<String, serde_json::Value> {
        let mut out = serde_json::Map::new();
        if let Some(v) = entry(&self.display_name) {
            out.insert("displayName".into(), v);
        }
        if let Some(v) = entry(&self.description) {
            out.insert("description".into(), v);
        }
        if self.member_count != 0 {
            out.insert("memberCount".into(), value(&set_entry(Some(Int64(self.member_count).to_json()))));
        }
        out
    }
}

fn columns(p: &Patch) -> String {
    serde_json::to_string(&p.set_columns()).unwrap()
}

#[test]
fn set_columns_distinguishes_unset_null_and_value() {
    let patch = Patch {
        display_name: Nullable::value("Bob".to_string()),
        description: Nullable::null(),
        member_count: 0,
    };
    assert_eq!(columns(&patch), r#"{"description":{"set":null},"displayName":{"set":"Bob"}}"#);
}

#[test]
fn set_columns_zero_value_is_still_emitted() {
    let patch = Patch {
        display_name: Nullable::value(String::new()),
        description: Nullable::unset(),
        member_count: 0,
    };
    assert_eq!(columns(&patch), r#"{"displayName":{"set":""}}"#);
}

#[test]
fn set_columns_all_unset_produces_no_columns() {
    let patch = Patch {
        display_name: Nullable::unset(),
        description: Nullable::unset(),
        member_count: 0,
    };
    assert_eq!(columns(&patch), "{}");
}
