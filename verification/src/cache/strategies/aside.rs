//! The stored form of a read-through (Aside) entry.
//!
//! The backend understands only bytes and one hard expiry, while Aside also
//! needs to know whether those bytes remember an absence and when a value
//! becomes stale before backend expiry. An entry is a JSON object: `v`
//! carries the loader's already-encoded JSON value, `f` its freshness
//! deadline in Unix milliseconds (omitted when zero), and `x: true` marks a
//! remembered absence. A JSON `null` value stays distinct from an absence,
//! because only `x` means absence.

use vstd::prelude::*;
use vstd::utf8::{decode_utf8, encode_utf8, valid_utf8};
use crate::cache::error::{CacheError, Result};
use crate::graphql::scalars::signed_decimal;
use crate::text::{decimal, push_char, push_decimal};

verus! {

/// What one stored entry holds once decoded.
#[derive(Debug, PartialEq, Eq)]
pub enum StoredEntry {
    /// A loaded value and whether its freshness deadline has passed.
    Value {
        /// The loader's JSON bytes.
        body: Vec<u8>,
        /// Whether the value is past its freshness deadline.
        stale: bool,
    },
    /// A remembered absence.
    Void,
}

/// What `String::from_utf8` reports for bytes that are not UTF-8: the text
/// of its error, which depends on the bytes alone.
pub uninterp spec fn utf8_error_text(bytes: Seq<u8>) -> Seq<char>;

/// Trusted: calls `String::from_utf8`, which its documentation says returns
/// the string the bytes encode when they are valid UTF-8 and an error that
/// describes the problem otherwise; the error's text is named by
/// `utf8_error_text`.
#[verifier::external_body]
fn utf8_string(bytes: &[u8]) -> (r: core::result::Result<String, String>)
    ensures
        match r {
            Ok(s) => valid_utf8(bytes@) && s@ == decode_utf8(bytes@),
            Err(e) => !valid_utf8(bytes@) && e@ == utf8_error_text(bytes@),
        },
{
    match String::from_utf8(bytes.to_vec()) {
        Ok(s) => Ok(s),
        Err(e) => Err(e.to_string()),
    }
}

/// What `serde_json::value::RawValue::from_string` makes of a text: the
/// UTF-8 bytes of the one JSON value the text holds, without surrounding
/// whitespace, or the text of the parse error. It depends on the text alone.
pub uninterp spec fn raw_json(text: Seq<char>) -> core::result::Result<Seq<u8>, Seq<char>>;

/// Trusted: calls `serde_json::value::RawValue::from_string`, which checks
/// that the text is exactly one JSON value; the outcome is named by
/// `raw_json`.
#[verifier::external_body]
fn raw_json_bytes(text: String) -> (r: core::result::Result<Vec<u8>, String>)
    ensures
        match r {
            Ok(v) => raw_json(text@) == Ok::<Seq<u8>, Seq<char>>(v@),
            Err(e) => raw_json(text@) == Err::<Seq<u8>, Seq<char>>(e@),
        },
{
    match serde_json::value::RawValue::from_string(text) {
        Ok(v) => Ok(v.get().as_bytes().to_vec()),
        Err(e) => Err(e.to_string()),
    }
}

/// The frame that stores a value: `{"v":<json>,"f":<deadline>}`, without
/// the `f` member when the deadline is zero.
pub open spec fn value_frame(json: Seq<u8>, fresh_until_ms: i64) -> Seq<u8> {
    encode_utf8("{\"v\":"@) + json + (if fresh_until_ms != 0 {
        encode_utf8(",\"f\":"@ + signed_decimal(fresh_until_ms as int))
    } else {
        Seq::empty()
    }) + encode_utf8("}"@)
}

/// The frame that remembers an absence: `{"x":true}`.
pub open spec fn void_frame() -> Seq<u8> {
    encode_utf8("{\"x\":true}"@)
}

/// Text every envelope error begins with.
pub open spec fn envelope_error(reason: Seq<char>) -> Seq<char> {
    "invalid Aside envelope: "@ + reason
}

/// Appends the UTF-8 bytes of a text.
fn push_text(out: &mut Vec<u8>, s: &str)
    ensures
        final(out)@ == old(out)@ + encode_utf8(s@),
{
    let bytes = s.as_bytes();
    let mut i: usize = 0;
    while i < bytes.len()
        invariant
            i <= bytes@.len(),
            bytes@ == encode_utf8(s@),
            out@ == old(out)@ + bytes@.take(i as int),
        decreases bytes@.len() - i,
    {
        out.push(bytes[i]);
        assert(bytes@.take(i + 1) =~= bytes@.take(i as int).push(bytes@[i as int]));
        i += 1;
    }
    assert(bytes@.take(i as int) =~= bytes@);
}

/// Appends raw bytes.
fn push_bytes(out: &mut Vec<u8>, bytes: &[u8])
    ensures
        final(out)@ == old(out)@ + bytes@,
{
    let mut i: usize = 0;
    while i < bytes.len()
        invariant
            i <= bytes@.len(),
            out@ == old(out)@ + bytes@.take(i as int),
        decreases bytes@.len() - i,
    {
        out.push(bytes[i]);
        assert(bytes@.take(i + 1) =~= bytes@.take(i as int).push(bytes@[i as int]));
        i += 1;
    }
    assert(bytes@.take(i as int) =~= bytes@);
}

/// The decimal text of a 64-bit integer, with a leading `-` when negative.
fn signed_text(n: i64) -> (s: String)
    ensures
        s@ == signed_decimal(n as int),
{
    let mut s = String::new();
    if n < 0 {
        push_char(&mut s, '-');
        let m: u64 = (0i128 - (n as i128)) as u64;
        push_decimal(&mut s, m);
        assert(s@ =~= seq!['-'] + decimal((-(n as int)) as nat));
    } else {
        push_decimal(&mut s, n as u64);
        assert(s@ =~= decimal(n as nat));
    }
    s
}

/// Wraps a loader's JSON-encoded value in the stored frame, with its
/// freshness deadline in Unix milliseconds (zero: no separate deadline).
///
/// The bytes must be UTF-8 text holding exactly one JSON value; callers
/// with arbitrary binary data encode it as JSON first.
pub fn pack_value(body: &[u8], fresh_until_ms: i64) -> (r: Result<Vec<u8>>)
    ensures
        !valid_utf8(body@) ==> (r matches Err(CacheError::Internal(m))
            && m@ == envelope_error("loader value is not UTF-8 JSON: "@ + utf8_error_text(body@))),
        valid_utf8(body@) ==> match raw_json(decode_utf8(body@)) {
            Ok(json) => (r matches Ok(frame) && frame@ == value_frame(json, fresh_until_ms)),
            Err(e) => (r matches Err(CacheError::Internal(m))
                && m@ == envelope_error("loader value is not valid JSON: "@ + e)),
        },
{
    let text = match utf8_string(body) {
        Ok(t) => t,
        Err(e) => {
            let mut m = String::from_str("invalid Aside envelope: ");
            m.append("loader value is not UTF-8 JSON: ");
            m.append(e.as_str());
            assert(m@ =~= envelope_error("loader value is not UTF-8 JSON: "@ + utf8_error_text(body@)));
            return Err(CacheError::Internal(m));
        },
    };
    let json = match raw_json_bytes(text) {
        Ok(j) => j,
        Err(e) => {
            let mut m = String::from_str("invalid Aside envelope: ");
            m.append("loader value is not valid JSON: ");
            m.append(e.as_str());
            assert(m@ =~= envelope_error("loader value is not valid JSON: "@ + e@));
            return Err(CacheError::Internal(m));
        },
    };
    let mut frame: Vec<u8> = Vec::new();
    push_text(&mut frame, "{\"v\":");
    push_bytes(&mut frame, json.as_slice());
    let ghost before_deadline = frame@;
    if fresh_until_ms != 0 {
        let mut member = String::from_str(",\"f\":");
        let digits = signed_text(fresh_until_ms);
        member.append(digits.as_str());
        push_text(&mut frame, member.as_str());
    }
    push_text(&mut frame, "}");
    assert(frame@ =~= value_frame(json@, fresh_until_ms));
    Ok(frame)
}

/// Frames a remembered absence under the same entry key as a value; this
/// never fails.
pub fn pack_void() -> (r: Result<Vec<u8>>)
    ensures
        r matches Ok(frame) && frame@ == void_frame(),
{
    let mut frame: Vec<u8> = Vec::new();
    push_text(&mut frame, "{\"x\":true}");
    assert(frame@ =~= void_frame());
    Ok(frame)
}

/// Decides what a decoded frame holds at the Unix time `now_ms`, given its
/// members: the `v` value when present, the `f` deadline (zero when absent)
/// and the `x` flag (false when absent).
///
/// An absence mark takes precedence over everything else; a frame without
/// `v` holds an empty body; a zero deadline never makes a value stale, and a
/// value at exactly its deadline is still fresh.
pub fn stored_entry(value: Option<Vec<u8>>, fresh_until_ms: i64, void: bool, now_ms: i64) -> (e: StoredEntry)
    ensures
        void ==> e == StoredEntry::Void,
        !void ==> (e matches StoredEntry::Value { body, stale }
            && body@ == (match value { Some(v) => v@, None => Seq::<u8>::empty() })
            && stale == (fresh_until_ms != 0 && now_ms > fresh_until_ms)),
{
    if void {
        return StoredEntry::Void;
    }
    let body = match value {
        Some(v) => v,
        None => Vec::new(),
    };
    StoredEntry::Value { body, stale: fresh_until_ms != 0 && now_ms > fresh_until_ms }
}

} // verus!
