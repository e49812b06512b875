use runtime::cache::error::CacheError;
use runtime::cache::strategies::aside::{pack_value, pack_void, stored_entry, StoredEntry};

/// Reads the members of a frame the way a stored entry is decoded: the raw
/// text of `v`, the `f` deadline (zero when absent) and the `x` flag.
fn members(frame: &[u8]) -> (Option<Vec<u8>>, i64, bool) {
    let doc: serde_json::Value = serde_json::from_slice(frame).unwrap();
    let value = doc.get("v").map(|v| serde_json::to_vec(v).unwrap());
    let fresh = doc.get("f").and_then(|f| f.as_i64()).unwrap_or(0);
    let void = doc.get("x").and_then(|x| x.as_bool()).unwrap_or(false);
    (value, fresh, void)
}

fn decode(frame: &[u8], now_ms: i64) -> StoredEntry {
    let (value, fresh, void) = members(frame);
    stored_entry(value, fresh, void, now_ms)
}

#[test]
fn test_aside_envelope_value_matches_go_shape() {
    let frame = pack_value(br#"{"name":"value"}"#, 200).unwrap();

    assert_eq!(frame, br#"{"v":{"name":"value"},"f":200}"#);
}

#[test]
fn test_aside_envelope_void_matches_go_shape() {
    let frame = pack_void().unwrap();

    assert_eq!(frame, br#"{"x":true}"#);
    assert_eq!(decode(&frame, i64::MAX), StoredEntry::Void);
}

#[test]
fn test_aside_envelope_invalid_loader_json_returns_error() {
    let result = pack_value(b"not-json", 0);

    assert!(matches!(result, Err(CacheError::Internal(_))));
}

#[test]
fn aside_value_frame_omits_zero_deadline() {
    let frame = pack_value(b"null", 0).unwrap();

    assert_eq!(frame, br#"{"v":null}"#);
}

#[test]
fn aside_value_frame_writes_negative_deadline() {
    let frame = pack_value(b"1", -5).unwrap();

    assert_eq!(frame, br#"{"v":1,"f":-5}"#);
}

#[test]
fn aside_value_frame_trims_whitespace_around_the_value() {
    let frame = pack_value(b"  [1, 2] ", 7).unwrap();

    assert_eq!(frame, br#"{"v":[1, 2],"f":7}"#);
}

#[test]
fn aside_invalid_utf8_loader_value_returns_error() {
    let result = pack_value(&[0xff, 0xfe], 0);

    match result {
        Err(CacheError::Internal(m)) => assert!(m.starts_with("invalid Aside envelope: loader value is not UTF-8 JSON: ")),
        other => panic!("expected a UTF-8 failure, got {other:?}"),
    }
}

#[test]
fn aside_invalid_json_loader_value_names_the_reason() {
    match pack_value(b"not-json", 0) {
        Err(CacheError::Internal(m)) => assert!(m.starts_with("invalid Aside envelope: loader value is not valid JSON: ")),
        other => panic!("expected a JSON failure, got {other:?}"),
    }
}

#[test]
fn aside_value_round_trip_fresh() {
    let frame = pack_value(br#"{"name":"value"}"#, 200).unwrap();

    assert_eq!(
        decode(&frame, 199),
        StoredEntry::Value { body: br#"{"name":"value"}"#.to_vec(), stale: false }
    );
}

#[test]
fn aside_value_at_deadline_remains_fresh() {
    assert_eq!(
        stored_entry(Some(br#""value""#.to_vec()), 200, false, 200),
        StoredEntry::Value { body: br#""value""#.to_vec(), stale: false }
    );
}

#[test]
fn aside_value_past_deadline_is_stale() {
    assert_eq!(
        stored_entry(Some(br#""value""#.to_vec()), 200, false, 201),
        StoredEntry::Value { body: br#""value""#.to_vec(), stale: true }
    );
}

#[test]
fn aside_value_without_deadline_stays_fresh() {
    assert_eq!(
        stored_entry(Some(b"null".to_vec()), 0, false, i64::MAX),
        StoredEntry::Value { body: b"null".to_vec(), stale: false }
    );
}

#[test]
fn aside_void_takes_precedence() {
    assert_eq!(stored_entry(Some(br#""ignored""#.to_vec()), 200, true, 300), StoredEntry::Void);
}

#[test]
fn aside_frame_without_value_holds_empty_body() {
    assert_eq!(stored_entry(None, 0, false, 0), StoredEntry::Value { body: Vec::new(), stale: false });
}
