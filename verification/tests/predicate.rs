use runtime::graphql::columns::{OrderBy, OrderTerm};
use runtime::graphql::fields::{Int64Field, StringField};
use runtime::graphql::json::Json;
use runtime::graphql::predicate::{and, not, relation, Predicate};
use runtime::graphql::requests::{after, ListRequest};
use runtime::graphql::scalars::Int64;

/// The serde_json value of a JSON document, for comparison with expected text.
fn value(j: &Json) -> serde_json::Value {
    match j {
        Json::Null => serde_json::Value::Null,
        Json::Bool(b) => serde_json::Value::Bool(*b),
        Json::Number(n) => serde_json::from_str(n).unwrap(),
        Json::Str(s) => serde_json::Value::String(s.clone()),
        Json::Array(items) => serde_json::Value::Array(items.iter().map(value).collect()),
        Json::Object(members) => {
            let mut m = serde_json::Map::new();
            for (k, v) in members {
                m.insert(k.clone(), value(v));
            }
            serde_json::Value::Object(m)
        }
    }
}

fn parsed(text: &str) -> serde_json::Value {
    serde_json::from_str(text).unwrap()
}

fn pred_json(p: &Predicate) -> serde_json::Value {
    value(&p.to_json())
}

fn terms_json(ts: &[OrderTerm]) -> serde_json::Value {
    serde_json::Value::Array(ts.iter().map(|t| value(&t.to_json())).collect())
}

fn text(s: &str) -> Json {
    Json::Str(s.to_string())
}

#[test]
fn predicate_single_column() {
    let id = StringField { col: "id" };
    assert_eq!(pred_json(&id.eq("x")), parsed(r#"{"id":{"_eq":"x"}}"#));
    assert_eq!(pred_json(&id.is_in(&["a", "b"])), parsed(r#"{"id":{"_in":["a","b"]}}"#));

    let count = Int64Field { col: "memberCount" };
    // Int64 marshals as a quoted string, not a bare number.
    assert_eq!(pred_json(&count.gt(Int64(1))), parsed(r#"{"memberCount":{"_gt":"1"}}"#));
}

#[test]
fn predicate_combinators() {
    let id = StringField { col: "id" };
    let name = StringField { col: "name" };
    let got = pred_json(&and(&[id.eq("x"), name.like("Bob%")]));
    assert_eq!(got, parsed(r#"{"_and":[{"id":{"_eq":"x"}},{"name":{"_like":"Bob%"}}]}"#));

    assert_eq!(pred_json(&not(id.eq("x"))), parsed(r#"{"_not":{"id":{"_eq":"x"}}}"#));

    assert!(Predicate::default().is_omitted());
    assert!(!id.eq("x").is_omitted());
}

#[test]
fn relation_nests_predicate_under_relationship_field() {
    let email = StringField { col: "email" };
    let got = pred_json(&relation("organisationMembers", email.eq("a@b.com")));
    assert_eq!(got, parsed(r#"{"organisationMembers":{"email":{"_eq":"a@b.com"}}}"#));
}

#[test]
fn order_term_json_shape() {
    let display_name = StringField { col: "displayName" };
    assert_eq!(value(&display_name.desc().to_json()), parsed(r#"{"displayName":"Desc"}"#));

    let a = StringField { col: "a" };
    let b = StringField { col: "b" };
    assert_eq!(terms_json(&[a.asc(), b.desc()]), parsed(r#"[{"a":"Asc"},{"b":"Desc"}]"#));
}

#[test]
fn keyset_after_ascending_uses_gt_descending_uses_lt() {
    let created = StringField { col: "createTime" };
    assert_eq!(
        pred_json(&after(&created.asc(), text("2026-01-01"))),
        parsed(r#"{"createTime":{"_gt":"2026-01-01"}}"#)
    );
    assert_eq!(
        pred_json(&after(&created.desc(), text("2026-01-01"))),
        parsed(r#"{"createTime":{"_lt":"2026-01-01"}}"#)
    );
}

#[test]
fn keyset_after_sets_order_and_cursor_on_fresh_request() {
    let created = StringField { col: "createTime" };
    let mut r = ListRequest::default();
    r.keyset_after(created.asc(), text("2026-01-01"));
    assert_eq!(
        pred_json(r.get_where()),
        parsed(r#"{"createTime":{"_gt":"2026-01-01"}}"#)
    );
    assert_eq!(terms_json(r.get_order_by()), parsed(r#"[{"createTime":"Asc"}]"#));
}

#[test]
fn keyset_after_composes_with_existing_where_via_and() {
    let created = StringField { col: "createTime" };
    let tenant = StringField { col: "tenant" };
    let mut r = ListRequest::default();
    r.where_(tenant.eq("t1"));
    r.keyset_after(created.asc(), text("x"));
    let want = parsed(r#"{"_and":[{"tenant":{"_eq":"t1"}},{"createTime":{"_gt":"x"}}]}"#);
    assert_eq!(pred_json(r.get_where()), want);
}

#[test]
fn order_term_accessors_report_column_and_direction() {
    let t = OrderTerm::new("createTime", OrderBy::Desc);
    assert_eq!(t.col(), "createTime");
    assert_eq!(t.dir(), OrderBy::Desc);
}
