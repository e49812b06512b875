//! Decision logic of the standalone Redis backend.
//!
//! The transport (connections, sending commands, decoding raw replies) is
//! the caller's; this module decides everything between: address and lease
//! validation, command arguments, and what each decoded reply means.

use vstd::prelude::*;
use crate::cache::error::{CacheError, Result, error_text};
use crate::cache::policy::DialTimeout;
use crate::text::{
    all_digits, char_digit, decimal, digit_char, digit_value, digits_value, is_digit, lemma_decimal_digits, owned,
    push_char, push_decimal, str_eq,
};
use crate::time::{Duration, NANOS_PER_MILLI};

verus! {

/// Address used when the configured address is empty.
pub const DEFAULT_REDIS_ADDRESS: &'static str = "localhost:6379";
/// Cursor count hint shared by keyspace scans.
pub const SCAN_BATCH: usize = 256;
/// Stable backend identity exposed in diagnostics.
pub const BACKEND: &'static str = "redis";

/// Connection settings for one standalone Redis client.
///
/// Deliberately without `Debug`, so routine configuration logging cannot
/// disclose the password.
pub struct RedisConfig {
    /// Redis address in `host:port` or `[ipv6]:port` form; empty selects
    /// [`DEFAULT_REDIS_ADDRESS`].
    pub address: String,
    /// Optional ACL username; empty omits it.
    pub username: String,
    /// Optional password; empty omits it.
    pub password: String,
    /// Numeric Redis database selected on each connection.
    pub database: usize,
    /// Policy for bounding initial and reconnect connection attempts.
    pub dial_timeout: DialTimeout,
}

impl Clone for RedisConfig {
    fn clone(&self) -> (c: Self)
        ensures
            c.address@ == self.address@,
            c.username@ == self.username@,
            c.password@ == self.password@,
            c.database == self.database,
            c.dial_timeout == self.dial_timeout,
    {
        RedisConfig {
            address: self.address.clone(),
            username: self.username.clone(),
            password: self.password.clone(),
            database: self.database,
            dial_timeout: self.dial_timeout,
        }
    }
}

impl Default for RedisConfig {
    fn default() -> (c: Self)
        ensures
            c.address@ == Seq::<char>::empty(),
            c.username@ == Seq::<char>::empty(),
            c.password@ == Seq::<char>::empty(),
            c.database == 0,
            c.dial_timeout == DialTimeout::Default,
    {
        RedisConfig {
            address: String::new(),
            username: String::new(),
            password: String::new(),
            database: 0,
            dial_timeout: DialTimeout::Default,
        }
    }
}

/// The settings of a derived client on another native index: the same
/// connection settings with only the database changed.
pub fn derived_config(config: &RedisConfig, index: usize) -> (c: RedisConfig)
    ensures
        c.address@ == config.address@,
        c.username@ == config.username@,
        c.password@ == config.password@,
        c.database == index,
        c.dial_timeout == config.dial_timeout,
{
    let mut c = config.clone();
    c.database = index;
    c
}

/// How a numeric database selection is served.
pub enum IndexSelection {
    /// The root client already selects this index: reuse it and release
    /// nothing, since the caller owns it.
    Reuse,
    /// Another index: connect a derived client with these settings; the
    /// selected database's close releases it.
    Derive(RedisConfig),
}

/// Decides how to serve a numeric selection on a client whose settings are
/// `current`: the same index reuses the client, any other derives one that
/// differs only in the database.
pub fn index_selection(current: &RedisConfig, index: usize) -> (s: IndexSelection)
    ensures
        current.database == index ==> s is Reuse,
        current.database != index ==> (s matches IndexSelection::Derive(c)
            && c.address@ == current.address@
            && c.username@ == current.username@
            && c.password@ == current.password@
            && c.database == index
            && c.dial_timeout == current.dial_timeout),
{
    if current.database == index {
        IndexSelection::Reuse
    } else {
        IndexSelection::Derive(derived_config(current, index))
    }
}

/// The username or password a connection sends: an empty setting is left
/// out rather than sent empty.
pub fn credential(setting: &str) -> (r: Option<&str>)
    ensures
        setting@.len() == 0 ==> r is None,
        setting@.len() > 0 ==> r == Some(setting),
{
    if setting.unicode_len() == 0 {
        None
    } else {
        Some(setting)
    }
}

/// The address a client connects to: the configured one, or the default
/// when it is empty.
pub fn effective_address(address: &str) -> (a: String)
    ensures
        address@.len() == 0 ==> a@ == DEFAULT_REDIS_ADDRESS@,
        address@.len() > 0 ==> a@ == address@,
{
    if address.unicode_len() == 0 {
        owned(DEFAULT_REDIS_ADDRESS)
    } else {
        owned(address)
    }
}

/// Text of the error for a database index Redis cannot address.
pub open spec fn index_range_error(database: nat) -> Seq<char> {
    "redis: database index "@ + decimal(database) + " exceeds Redis range"@
}

/// The signed database number Redis selects: indexes beyond the signed
/// 64-bit range are refused before any connection is made.
pub fn redis_database_index(database: usize) -> (r: Result<i64>)
    ensures
        database <= i64::MAX ==> r == Ok::<i64, CacheError>(database as i64),
        database > i64::MAX ==> (r matches Err(CacheError::Internal(m))
            && m@ == index_range_error(database as nat)),
{
    if database as u64 <= i64::MAX as u64 {
        Ok(database as i64)
    } else {
        let mut m = String::from_str("redis: database index ");
        push_decimal(&mut m, database as u64);
        m.append(" exceeds Redis range");
        assert(m@ =~= index_range_error(database as nat));
        Err(CacheError::Internal(m))
    }
}

/// Text of an operation failure: `redis: {operation}: {detail}`.
pub open spec fn internal_text(operation: Seq<char>, detail: Seq<char>) -> Seq<char> {
    "redis: "@ + operation + ": "@ + detail
}

/// Converts a backend failure into a cache error carrying only the backend
/// and the safe operation name, never connection settings.
pub fn internal(operation: &str, detail: &str) -> (e: CacheError)
    ensures
        e matches CacheError::Internal(m) && m@ == internal_text(operation@, detail@),
{
    let mut m = String::from_str("redis: ");
    m.append(operation);
    m.append(": ");
    m.append(detail);
    assert(m@ =~= internal_text(operation@, detail@));
    CacheError::Internal(m)
}

/// What std's `u16::from_str` accepts: an optional `+` followed by at least
/// one decimal digit, denoting at most 65535.
pub open spec fn parse_u16_spec(s: Seq<char>) -> Option<u16> {
    let body = if s.len() > 0 && s[0] == '+' { s.skip(1) } else { s };
    if body.len() > 0 && all_digits(body) && digits_value(body) <= 65535 {
        Some(digits_value(body) as u16)
    } else {
        None
    }
}

/// Parses a port number as std's `u16::from_str` does.
pub fn parse_u16(s: &str) -> (r: Option<u16>)
    ensures
        r == parse_u16_spec(s@),
{
    let n = s.unicode_len();
    let start: usize = if n > 0 && s.get_char(0) == '+' { 1 } else { 0 };
    let ghost body = if s@.len() > 0 && s@[0] == '+' { s@.skip(1) } else { s@ };
    assert(body =~= s@.subrange(start as int, n as int));
    if start >= n {
        return None;
    }
    // Accumulate with a cap just above the range, so the value never overflows.
    let mut acc: u32 = 0;
    let mut i: usize = start;
    while i < n
        invariant
            n == s@.len(),
            start <= i <= n,
            body == s@.subrange(start as int, n as int),
            body == (if s@.len() > 0 && s@[0] == '+' { s@.skip(1) } else { s@ }),
            all_digits(s@.subrange(start as int, i as int)),
            acc as nat == if digits_value(s@.subrange(start as int, i as int)) < 65536 {
                digits_value(s@.subrange(start as int, i as int))
            } else {
                65536
            },
        decreases n - i,
    {
        let c = s.get_char(i);
        let ghost prefix = s@.subrange(start as int, i as int);
        let ghost next = s@.subrange(start as int, i + 1);
        assert(next.drop_last() =~= prefix);
        assert(next.last() == c);
        match char_digit(c) {
            None => {
                assert(body[i - start] == c);
                assert(!(digit_value(body[i - start]) is Some));
                assert(!all_digits(body));
                assert(body == (if s@.len() > 0 && s@[0] == '+' { s@.skip(1) } else { s@ }));
                assert(!(body.len() > 0 && all_digits(body) && digits_value(body) <= 65535));
                assert(parse_u16_spec(s@) is None);
                return None;
            },
            Some(d) => {
                let v = acc * 10 + d;
                acc = if v > 65536 { 65536 } else { v };
                assert(all_digits(next)) by {
                    assert forall|j: int| 0 <= j < next.len() implies #[trigger] digit_value(next[j]) is Some by {
                        if j < prefix.len() {
                            assert(next[j] == prefix[j]);
                        }
                    }
                }
            },
        }
        i += 1;
    }
    if acc > 65535 {
        None
    } else {
        Some(acc as u16)
    }
}

/// The position of the last `:` in a string.
pub open spec fn last_colon(s: Seq<char>) -> int {
    choose|i: int| 0 <= i < s.len() && s[i] == ':' && forall|j: int| i < j < s.len() ==> s[j] != ':'
}

/// Whether `]:` starts at position `i`.
pub open spec fn bracket_colon_at(s: Seq<char>, i: int) -> bool {
    0 <= i && i + 1 < s.len() && s[i] == ']' && s[i + 1] == ':'
}

/// The position of the first `]:` in a string.
pub open spec fn first_bracket_colon(s: Seq<char>) -> int {
    choose|i: int| bracket_colon_at(s, i) && forall|j: int| 0 <= j < i ==> !#[trigger] bracket_colon_at(s, j)
}

/// Whether `]:` occurs in a string.
pub open spec fn has_bracket_colon(s: Seq<char>) -> bool {
    exists|i: int| #[trigger] bracket_colon_at(s, i)
}

/// Whether `:` occurs in a string.
pub open spec fn has_colon(s: Seq<char>) -> bool {
    exists|i: int| 0 <= i < s.len() && s[i] == ':'
}

/// The host and port texts of an address: `[host]:port` splits at the first
/// `]:` after the bracket, anything else at the last `:`; `None` when the
/// separator is missing.
pub open spec fn address_parts(a: Seq<char>) -> Option<(Seq<char>, Seq<char>)> {
    if a.len() > 0 && a[0] == '[' {
        let rest = a.skip(1);
        if has_bracket_colon(rest) {
            let i = first_bracket_colon(rest);
            Some((rest.take(i), rest.skip(i + 2)))
        } else {
            None
        }
    } else if has_colon(a) {
        let i = last_colon(a);
        Some((a.take(i), a.skip(i + 1)))
    } else {
        None
    }
}

/// Text of the error for an address without a usable separator.
pub open spec fn shape_error() -> Seq<char> {
    "redis: address must be host:port or [ipv6]:port"@
}

/// Text of the error for an address with an empty host.
pub open spec fn host_error() -> Seq<char> {
    "redis: address host cannot be empty"@
}

/// Text of the error for an unusable port.
pub open spec fn port_error() -> Seq<char> {
    "redis: address port must be between 1 and 65535"@
}

/// Finds the host and port of a bracketed address `[host]:port`: the
/// positions of the host's first and past-the-end characters, and of the
/// port's first character.
fn split_bracketed(address: &str) -> (r: Option<(usize, usize, usize)>)
    requires
        address@.len() > 0,
        address@[0] == '[',
    ensures
        match address_parts(address@) {
            None => r is None,
            Some((host, port)) => r matches Some((hs, he, ps)) && hs <= he <= ps <= address@.len()
                && host == address@.subrange(hs as int, he as int)
                && port == address@.subrange(ps as int, address@.len() as int),
        },
{
    let n = address.unicode_len();
    let ghost rest = address@.skip(1);
    let mut i: usize = 1;
    let mut found = false;
    while i < n - 1
        invariant_except_break
            !found,
        invariant
            n == address@.len(),
            n > 0,
            1 <= i <= n,
            rest == address@.skip(1),
            forall|j: int| 0 <= j < i - 1 ==> !#[trigger] bracket_colon_at(rest, j),
        ensures
            found ==> i + 1 < n && bracket_colon_at(rest, i - 1),
            !found ==> i >= n - 1,
        decreases n - i,
    {
        if address.get_char(i) == ']' && address.get_char(i + 1) == ':' {
            found = true;
            break;
        }
        i += 1;
    }
    if found {
        proof {
            let k = (i - 1) as int;
            assert(has_bracket_colon(rest));
            let f = first_bracket_colon(rest);
            if f > k {
                assert(bracket_colon_at(rest, k));
            }
            assert(f == k);
            assert(rest.take(k) =~= address@.subrange(1, i as int));
            assert(rest.skip(k + 2) =~= address@.subrange(i + 2, n as int));
            assert(address_parts(address@) == Some((address@.subrange(1, i as int), address@.subrange(i + 2, n as int))));
        }
        Some((1, i, i + 2))
    } else {
        proof {
            assert forall|j: int| !#[trigger] bracket_colon_at(rest, j) by {
                if 0 <= j < i - 1 {
                } else if bracket_colon_at(rest, j) {
                    assert(j + 1 < rest.len());
                }
            }
        }
        None
    }
}

/// Finds the host and port of `host:port`, split at the last `:`.
fn split_last_colon(address: &str) -> (r: Option<(usize, usize, usize)>)
    requires
        !(address@.len() > 0 && address@[0] == '['),
    ensures
        match address_parts(address@) {
            None => r is None,
            Some((host, port)) => r matches Some((hs, he, ps)) && hs <= he <= ps <= address@.len()
                && host == address@.subrange(hs as int, he as int)
                && port == address@.subrange(ps as int, address@.len() as int),
        },
{
    let n = address.unicode_len();
    let mut i: usize = n;
    let mut found = false;
    while i > 0
        invariant_except_break
            !found,
        invariant
            n == address@.len(),
            i <= n,
            forall|j: int| i <= j < n ==> address@[j] != ':',
        ensures
            found ==> 0 < i <= n && address@[i - 1] == ':',
            !found ==> i == 0,
        decreases i,
    {
        if address.get_char(i - 1) == ':' {
            found = true;
            break;
        }
        i -= 1;
    }
    if found {
        proof {
            let k = i - 1;
            assert(has_colon(address@));
            let f = last_colon(address@);
            if f < k {
                assert(address@[k] == ':');
            }
            assert(f == k);
            assert(address@.take(f) =~= address@.subrange(0, k));
            assert(address@.skip(f + 1) =~= address@.subrange(i as int, n as int));
        }
        Some((0, i - 1, i))
    } else {
        None
    }
}

/// Parses the standalone address forms accepted publicly: `host:port` for
/// hostnames and IPv4, `[address]:port` for IPv6. Empty hosts, missing
/// ports, zero and out-of-range ports fail before any network state.
pub fn parse_address(address: &str) -> (r: Result<(String, u16)>)
    ensures
        match address_parts(address@) {
            None => r matches Err(CacheError::Internal(m)) && m@ == shape_error(),
            Some((host, port)) => if host.len() == 0 {
                r matches Err(CacheError::Internal(m)) && m@ == host_error()
            } else {
                match parse_u16_spec(port) {
                    Some(p) => if p != 0 {
                        r matches Ok((h, q)) && h@ == host && q == p
                    } else {
                        r matches Err(CacheError::Internal(m)) && m@ == port_error()
                    },
                    None => r matches Err(CacheError::Internal(m)) && m@ == port_error(),
                }
            },
        },
{
    let n = address.unicode_len();
    let split = if n > 0 && address.get_char(0) == '[' {
        split_bracketed(address)
    } else {
        split_last_colon(address)
    };
    let (host_start, host_end, port_start) = match split {
        Some(parts) => parts,
        None => {
            return Err(CacheError::Internal(String::from_str("redis: address must be host:port or [ipv6]:port")));
        },
    };
    if host_end == host_start {
        return Err(CacheError::Internal(String::from_str("redis: address host cannot be empty")));
    }
    let host = address.substring_char(host_start, host_end);
    let port_text = address.substring_char(port_start, n);
    match parse_u16(port_text) {
        Some(port) => {
            if port == 0 {
                return Err(CacheError::Internal(String::from_str("redis: address port must be between 1 and 65535")));
            }
            Ok((owned(host), port))
        },
        None => Err(CacheError::Internal(String::from_str("redis: address port must be between 1 and 65535"))),
    }
}

/// Whole milliseconds in a lease, rounding any positive fraction up.
pub open spec fn ceil_millis(nanos: nat) -> nat {
    if nanos % (NANOS_PER_MILLI as nat) == 0 {
        nanos / (NANOS_PER_MILLI as nat)
    } else {
        nanos / (NANOS_PER_MILLI as nat) + 1
    }
}

/// Text of the error for a lease beyond Redis's millisecond range.
pub open spec fn ttl_range_error() -> Seq<char> {
    "redis: TTL exceeds millisecond range"@
}

/// Converts a lease to Redis milliseconds without shortening it: any
/// positive fraction of a millisecond rounds up, since rounding down could
/// turn a positive lease into zero, whose meaning differs between SET and
/// PEXPIRE. Leases beyond Redis's integer range (signed 64-bit
/// milliseconds) are refused.
pub fn ttl_millis(ttl: Duration) -> (r: Result<u64>)
    ensures
        ceil_millis(ttl.total_nanos()) <= i64::MAX ==> r == Ok::<u64, CacheError>(
            ceil_millis(ttl.total_nanos()) as u64,
        ),
        ceil_millis(ttl.total_nanos()) > i64::MAX ==> (r matches Err(CacheError::Internal(m))
            && m@ == ttl_range_error()),
{
    let whole = ttl.as_millis();
    let nanos = ttl.subsec_nanos();
    proof {
        let secs = ttl.spec_secs() as int;
        let t = ttl.total_nanos() as int;
        assert(t == secs * 1_000_000_000 + nanos);
        assert((secs * 1_000_000_000 + nanos) % 1_000_000 == nanos % 1_000_000) by (nonlinear_arith)
            requires secs >= 0, nanos >= 0;
        assert(whole * 1_000_000 <= t) by (nonlinear_arith)
            requires whole == t / 1_000_000, t >= 0;
    }
    let rounded: u128 = if nanos % NANOS_PER_MILLI == 0 {
        whole
    } else {
        assert(whole < u128::MAX) by (nonlinear_arith)
            requires whole == ttl.total_nanos() / 1_000_000, ttl.total_nanos() < 0x1_0000_0000_0000_0000_0000_0000;
        whole + 1
    };
    proof { ttl.lemma_bounded(); }
    if rounded > i64::MAX as u128 {
        return Err(CacheError::Internal(String::from_str("redis: TTL exceeds millisecond range")));
    }
    Ok(rounded as u64)
}

/// The dial-timeout setting a connection manager receives.
#[derive(Clone, Copy, Debug, PartialEq, Eq, Structural)]
pub enum ConnectionTimeout {
    /// Leave the client library's own default in place.
    Native,
    /// No dial timeout at all.
    Disabled,
    /// Bound each dial attempt by this positive duration.
    After(Duration),
}

/// Text of the error for a zero dial timeout.
pub open spec fn zero_timeout_error() -> Seq<char> {
    "redis: dial timeout must be positive; use Default or Disabled"@
}

/// Resolves the public dial-timeout policy into the connection manager's
/// setting: `Default` keeps the library default untouched, `Disabled` is
/// the only way to remove the bound, and `After` must be positive.
pub fn connection_manager_config(timeout: DialTimeout) -> (r: Result<ConnectionTimeout>)
    ensures
        timeout == DialTimeout::Default ==> r == Ok::<ConnectionTimeout, CacheError>(ConnectionTimeout::Native),
        timeout == DialTimeout::Disabled ==> r == Ok::<ConnectionTimeout, CacheError>(ConnectionTimeout::Disabled),
        timeout matches DialTimeout::After(d) ==> (d.total_nanos() == 0 ==> (r matches Err(CacheError::Internal(m))
            && m@ == zero_timeout_error())),
        timeout matches DialTimeout::After(d) ==> (d.total_nanos() > 0 ==> r == Ok::<ConnectionTimeout, CacheError>(
            ConnectionTimeout::After(d))),
{
    match timeout {
        DialTimeout::Default => Ok(ConnectionTimeout::Native),
        DialTimeout::Disabled => Ok(ConnectionTimeout::Disabled),
        DialTimeout::After(duration) => {
            if duration.is_zero() {
                Err(CacheError::Internal(String::from_str("redis: dial timeout must be positive; use Default or Disabled")))
            } else {
                Ok(ConnectionTimeout::After(duration))
            }
        },
    }
}

/// One argument of a Redis command as it goes on the wire.
#[derive(Debug)]
pub enum Arg {
    /// A text argument.
    Text(String),
    /// A binary argument.
    Bytes(Vec<u8>),
    /// An unsigned integer, sent as its decimal text.
    Int(u64),
}

/// The view of one command argument.
pub enum ArgView {
    /// A text argument.
    Text(Seq<char>),
    /// A binary argument.
    Bytes(Seq<u8>),
    /// An unsigned integer.
    Int(nat),
}

/// The views of a command's arguments.
pub open spec fn arg_views(args: Seq<Arg>) -> Seq<ArgView> {
    args.map_values(|a: Arg| match a {
        Arg::Text(s) => ArgView::Text(s@),
        Arg::Bytes(b) => ArgView::Bytes(b@),
        Arg::Int(n) => ArgView::Int(n as nat),
    })
}

fn text(s: &str) -> (a: Arg)
    ensures
        a matches Arg::Text(t) && t@ == s@,
{
    Arg::Text(owned(s))
}

/// The optional conditions of a write.
#[derive(Clone, Copy, Debug, PartialEq, Eq, Structural)]
pub enum WriteCondition {
    /// Write unconditionally.
    Always,
    /// Write only when the key is absent (`NX`).
    IfAbsent,
    /// Write only when the key exists (`XX`).
    IfPresent,
}

/// The arguments of the one `SET` that writes a value: `SET key value`,
/// then `PX ms` for a positive lease (zero means permanent), then `NX` or
/// `XX` for a conditional write.
pub open spec fn set_args(key: Seq<char>, value: Seq<u8>, ttl: Duration, condition: WriteCondition) -> Seq<ArgView> {
    seq![ArgView::Text("SET"@), ArgView::Text(key), ArgView::Bytes(value)]
        + (if ttl.total_nanos() == 0 { Seq::empty() } else {
            seq![ArgView::Text("PX"@), ArgView::Int(ceil_millis(ttl.total_nanos()))]
        })
        + match condition {
            WriteCondition::Always => Seq::empty(),
            WriteCondition::IfAbsent => seq![ArgView::Text("NX"@)],
            WriteCondition::IfPresent => seq![ArgView::Text("XX"@)],
        }
}

/// Builds the `SET` command for a write; a lease beyond the millisecond
/// range is refused before anything is sent.
pub fn set_command(key: &str, value: &[u8], ttl: Duration, condition: WriteCondition) -> (r: Result<Vec<Arg>>)
    ensures
        ttl.total_nanos() > 0 && ceil_millis(ttl.total_nanos()) > i64::MAX ==> (r matches Err(CacheError::Internal(m))
            && m@ == ttl_range_error()),
        (ttl.total_nanos() == 0 || ceil_millis(ttl.total_nanos()) <= i64::MAX) ==> (r matches Ok(args)
            && arg_views(args@) == set_args(key@, value@, ttl, condition)),
        r matches Ok(args) ==> (ttl.total_nanos() > 0 <==> arg_views(args@).len() >= 5
            && arg_views(args@)[3] == ArgView::Text("PX"@)
            && arg_views(args@)[4] == ArgView::Int(ceil_millis(ttl.total_nanos()))),
{
    proof { law_set_lease_follows_the_lease(key@, value@, ttl, condition); }
    let mut args: Vec<Arg> = Vec::new();
    args.push(text("SET"));
    args.push(text(key));
    args.push(Arg::Bytes(vstd::slice::slice_to_vec(value)));
    let ghost base = arg_views(args@);
    assert(base =~= seq![ArgView::Text("SET"@), ArgView::Text(key@), ArgView::Bytes(value@)]);
    if !ttl.is_zero() {
        let ms = ttl_millis(ttl)?;
        args.push(text("PX"));
        args.push(Arg::Int(ms));
    }
    let ghost mid = arg_views(args@);
    assert(mid =~= base + (if ttl.total_nanos() == 0 { Seq::<ArgView>::empty() } else {
        seq![ArgView::Text("PX"@), ArgView::Int(ceil_millis(ttl.total_nanos()))]
    }));
    match condition {
        WriteCondition::Always => {},
        WriteCondition::IfAbsent => args.push(text("NX")),
        WriteCondition::IfPresent => args.push(text("XX")),
    }
    assert(arg_views(args@) =~= set_args(key@, value@, ttl, condition));
    Ok(args)
}

/// Text of the error for a nil reply to an unconditional write.
pub open spec fn nil_set_error() -> Seq<char> {
    internal_text("set reply"@, "unexpected nil response from unconditional SET"@)
}

/// What a `SET` reply means. `reply` is `None` for a nil reply, otherwise
/// the outcome of decoding it as a status string. Nil is the normal
/// not-written result of a conditional write, and never valid for an
/// unconditional one.
pub fn write_outcome(condition: WriteCondition, reply: Option<Result<()>>) -> (r: Result<bool>)
    ensures
        reply is None && condition != WriteCondition::Always ==> r == Ok::<bool, CacheError>(false),
        reply is None && condition == WriteCondition::Always ==> (r matches Err(CacheError::Internal(m))
            && m@ == nil_set_error()),
        reply matches Some(Ok(())) ==> r == Ok::<bool, CacheError>(true),
        reply matches Some(Err(e)) ==> r == Err::<bool, CacheError>(e),
{
    match reply {
        None => {
            if condition == WriteCondition::Always {
                Err(internal("set reply", "unexpected nil response from unconditional SET"))
            } else {
                Ok(false)
            }
        },
        Some(Ok(())) => Ok(true),
        Some(Err(e)) => Err(e),
    }
}

/// What a `GET` reply means: nil is a miss; otherwise the decoded bytes, or
/// the decoding failure.
pub fn get_outcome(reply: Option<Result<Vec<u8>>>) -> (r: Result<Vec<u8>>)
    ensures
        reply is None ==> r matches Err(CacheError::NotFound),
        reply matches Some(d) ==> r == d,
{
    match reply {
        None => Err(CacheError::NotFound),
        Some(decoded) => decoded,
    }
}

/// Whether an `EXISTS` count reports the key live.
pub fn exists_outcome(count: i64) -> (live: bool)
    ensures
        live == (count > 0),
{
    count > 0
}

/// The script that makes a live key permanent and reports absence as -1,
/// since `PERSIST` alone answers the same for a missing key and an
/// already-permanent one.
pub const PERSIST_SCRIPT: &'static str = "if redis.call('EXISTS', KEYS[1]) == 0 then return -1 end return redis.call('PERSIST', KEYS[1])";

/// The arguments of the command that changes a key's lease.
pub open spec fn touch_args(key: Seq<char>, ttl: Duration) -> Seq<ArgView> {
    if ttl.total_nanos() == 0 {
        seq![ArgView::Text("EVAL"@), ArgView::Text(PERSIST_SCRIPT@), ArgView::Int(1), ArgView::Text(key)]
    } else {
        seq![ArgView::Text("PEXPIRE"@), ArgView::Text(key), ArgView::Int(ceil_millis(ttl.total_nanos()))]
    }
}

/// Builds the command that changes a key's lease without rewriting its
/// value: the persist script for a zero lease, `PEXPIRE` otherwise.
pub fn touch_command(key: &str, ttl: Duration) -> (r: Result<Vec<Arg>>)
    ensures
        ttl.total_nanos() > 0 && ceil_millis(ttl.total_nanos()) > i64::MAX ==> (r matches Err(CacheError::Internal(m))
            && m@ == ttl_range_error()),
        (ttl.total_nanos() == 0 || ceil_millis(ttl.total_nanos()) <= i64::MAX) ==> (r matches Ok(args)
            && arg_views(args@) == touch_args(key@, ttl)),
{
    let mut args: Vec<Arg> = Vec::new();
    if ttl.is_zero() {
        args.push(text("EVAL"));
        args.push(text(PERSIST_SCRIPT));
        args.push(Arg::Int(1));
        args.push(text(key));
    } else {
        let ms = ttl_millis(ttl)?;
        args.push(text("PEXPIRE"));
        args.push(text(key));
        args.push(Arg::Int(ms));
    }
    assert(arg_views(args@) =~= touch_args(key@, ttl));
    Ok(args)
}

/// What the lease-change reply means: the persist script answers -1 only
/// for a missing key, `PEXPIRE` answers 0 for one.
pub fn touch_outcome(ttl: Duration, count: i64) -> (r: Result<()>)
    ensures
        ttl.total_nanos() == 0 ==> (count >= 0 ==> r is Ok) && (count < 0 ==> r matches Err(CacheError::NotFound)),
        ttl.total_nanos() > 0 ==> (count > 0 ==> r is Ok) && (count <= 0 ==> r matches Err(CacheError::NotFound)),
{
    let ok = if ttl.is_zero() { count >= 0 } else { count > 0 };
    if ok {
        Ok(())
    } else {
        Err(CacheError::NotFound)
    }
}

/// The arguments of a command naming a key and a list of members or keys:
/// `{name} key m1 m2 ...`, or `{name} k1 k2 ...` without a key.
pub open spec fn list_args(name: Seq<char>, key: Option<Seq<char>>, items: Seq<&str>) -> Seq<ArgView> {
    seq![ArgView::Text(name)]
        + match key { Some(k) => seq![ArgView::Text(k)], None => Seq::empty() }
        + items.map_values(|s: &str| ArgView::Text(s@))
}

fn list_command(name: &str, key: Option<&str>, items: &[&str]) -> (args: Vec<Arg>)
    ensures
        arg_views(args@) == list_args(name@, match key { Some(k) => Some(k@), None => None }, items@),
{
    let mut args: Vec<Arg> = Vec::new();
    args.push(text(name));
    match key {
        Some(k) => args.push(text(k)),
        None => {},
    }
    let ghost base = arg_views(args@);
    let mut i: usize = 0;
    while i < items.len()
        invariant
            i <= items@.len(),
            arg_views(args@) == base + items@.take(i as int).map_values(|s: &str| ArgView::Text(s@)),
        decreases items@.len() - i,
    {
        let ghost before = args@;
        let a = text(items[i]);
        args.push(a);
        assert(arg_views(args@) =~= arg_views(before).push(ArgView::Text(items@[i as int]@)));
        assert(items@.take(i + 1) =~= items@.take(i as int).push(items@[i as int]));
        assert(items@.take(i + 1).map_values(|s: &str| ArgView::Text(s@)) =~= items@.take(i as int).map_values(
            |s: &str| ArgView::Text(s@),
        ).push(ArgView::Text(items@[i as int]@)));
        assert(arg_views(args@) =~= base + items@.take(i + 1).map_values(|s: &str| ArgView::Text(s@)));
        i += 1;
    }
    assert(items@.take(i as int) =~= items@);
    assert(arg_views(args@) =~= list_args(name@, match key { Some(k) => Some(k@), None => None }, items@));
    args
}

/// The `DEL` command for a batch of keys, or nothing for an empty batch,
/// which Redis would refuse and which deletes nothing anyway.
pub fn delete_command(keys: &[&str]) -> (r: Option<Vec<Arg>>)
    ensures
        keys@.len() == 0 ==> r is None,
        keys@.len() > 0 ==> (r matches Some(args) && arg_views(args@) == list_args("DEL"@, None, keys@)),
{
    if keys.len() == 0 {
        None
    } else {
        Some(list_command("DEL", None, keys))
    }
}

/// The `SADD` command adding members to a set, or nothing when there are no
/// members.
pub fn set_add_command(key: &str, members: &[&str]) -> (r: Option<Vec<Arg>>)
    ensures
        members@.len() == 0 ==> r is None,
        members@.len() > 0 ==> (r matches Some(args) && arg_views(args@) == list_args("SADD"@, Some(key@), members@)),
{
    if members.len() == 0 {
        None
    } else {
        Some(list_command("SADD", Some(key), members))
    }
}

/// The `SREM` command removing members from a set, or nothing when there
/// are no members.
pub fn set_remove_command(key: &str, members: &[&str]) -> (r: Option<Vec<Arg>>)
    ensures
        members@.len() == 0 ==> r is None,
        members@.len() > 0 ==> (r matches Some(args) && arg_views(args@) == list_args("SREM"@, Some(key@), members@)),
{
    if members.len() == 0 {
        None
    } else {
        Some(list_command("SREM", Some(key), members))
    }
}

/// A single-key read command: `GET key`, `EXISTS key` or `SMEMBERS key`.
pub open spec fn key_args(name: Seq<char>, key: Seq<char>) -> Seq<ArgView> {
    seq![ArgView::Text(name), ArgView::Text(key)]
}

fn key_command(name: &str, key: &str) -> (args: Vec<Arg>)
    ensures
        arg_views(args@) == key_args(name@, key@),
{
    let mut args: Vec<Arg> = Vec::new();
    args.push(text(name));
    args.push(text(key));
    assert(arg_views(args@) =~= key_args(name@, key@));
    args
}

/// The `GET` command reading one value.
pub fn get_command(key: &str) -> (args: Vec<Arg>)
    ensures
        arg_views(args@) == key_args("GET"@, key@),
{
    key_command("GET", key)
}

/// The `EXISTS` command checking one key.
pub fn exists_command(key: &str) -> (args: Vec<Arg>)
    ensures
        arg_views(args@) == key_args("EXISTS"@, key@),
{
    key_command("EXISTS", key)
}

/// The `SMEMBERS` command listing one set.
pub fn members_command(key: &str) -> (args: Vec<Arg>)
    ensures
        arg_views(args@) == key_args("SMEMBERS"@, key@),
{
    key_command("SMEMBERS", key)
}

/// The texts of a list of strings.
pub open spec fn texts(v: Seq<String>) -> Seq<Seq<char>> {
    v.map_values(|s: String| s@)
}

/// The keys a scan has returned, each once in first-seen order.
pub open spec fn unique_in_order(s: Seq<Seq<char>>) -> Seq<Seq<char>>
    decreases s.len(),
{
    if s.len() == 0 {
        Seq::empty()
    } else {
        unique_in_order(s.drop_last()) + if s.drop_last().contains(s.last()) {
            Seq::empty()
        } else {
            seq![s.last()]
        }
    }
}

proof fn lemma_unique_contains(s: Seq<Seq<char>>, k: Seq<char>)
    ensures
        unique_in_order(s).contains(k) <==> s.contains(k),
    decreases s.len(),
{
    if s.len() > 0 {
        lemma_unique_contains(s.drop_last(), k);
        let u = unique_in_order(s);
        let p = unique_in_order(s.drop_last());
        if s.contains(k) && k != s.last() {
            let i = choose|i: int| 0 <= i < s.len() && s[i] == k;
            assert(s.drop_last()[i] == k);
        }
        if s.drop_last().contains(k) {
            let i = choose|i: int| 0 <= i < s.drop_last().len() && s.drop_last()[i] == k;
            assert(s[i] == k);
        }
        if p.contains(k) {
            let i = choose|i: int| 0 <= i < p.len() && p[i] == k;
            assert(u[i] == k);
        }
        if s.last() == k && !s.drop_last().contains(k) {
            assert(u[u.len() - 1] == k);
        }
        if u.contains(k) && !p.contains(k) {
            let i = choose|i: int| 0 <= i < u.len() && u[i] == k;
            assert(i == u.len() - 1);
        }
    }
}

/// A cursor walk over keys matching a pattern, collecting each key once in
/// first-seen order even when the moving cursor repeats keys.
pub struct ScanState {
    cursor: u64,
    keys: Vec<String>,
    seen: Ghost<Seq<Seq<char>>>,
}

impl ScanState {
    /// Every key the scan has returned so far, repeats included, in order.
    pub closed spec fn spec_seen(&self) -> Seq<Seq<char>> {
        self.seen@
    }

    /// The cursor the next `SCAN` continues from.
    pub closed spec fn spec_cursor(&self) -> u64 {
        self.cursor
    }

    /// The collected keys.
    pub closed spec fn spec_keys(&self) -> Seq<Seq<char>> {
        texts(self.keys@)
    }

    /// The collected keys are the returned keys, each once, in first-seen
    /// order.
    pub open spec fn consistent(&self) -> bool {
        self.spec_keys() == unique_in_order(self.spec_seen())
    }

    /// A scan that has not started: cursor zero, nothing collected.
    pub fn new() -> (s: ScanState)
        ensures
            s.spec_cursor() == 0,
            s.spec_seen() == Seq::<Seq<char>>::empty(),
            s.consistent(),
    {
        let s = ScanState { cursor: 0, keys: Vec::new(), seen: Ghost(Seq::empty()) };
        assert(texts(s.keys@) =~= unique_in_order(Seq::empty()));
        s
    }

    /// The next `SCAN` command: `SCAN cursor MATCH pattern COUNT 256`.
    pub fn command(&self, pattern: &str) -> (args: Vec<Arg>)
        ensures
            arg_views(args@) == seq![ArgView::Text("SCAN"@), ArgView::Int(self.spec_cursor() as nat),
                ArgView::Text("MATCH"@), ArgView::Text(pattern@), ArgView::Text("COUNT"@),
                ArgView::Int(SCAN_BATCH as nat)],
    {
        let mut args: Vec<Arg> = Vec::new();
        args.push(text("SCAN"));
        args.push(Arg::Int(self.cursor));
        args.push(text("MATCH"));
        args.push(text(pattern));
        args.push(text("COUNT"));
        args.push(Arg::Int(SCAN_BATCH as u64));
        assert(arg_views(args@) =~= seq![ArgView::Text("SCAN"@), ArgView::Int(self.cursor as nat),
            ArgView::Text("MATCH"@), ArgView::Text(pattern@), ArgView::Text("COUNT"@),
            ArgView::Int(SCAN_BATCH as nat)]);
        args
    }

    /// Takes one `SCAN` reply: the next cursor and a batch of keys. Returns
    /// whether the walk is complete, which a zero cursor signals.
    pub fn step(&mut self, next: u64, batch: &[String]) -> (done: bool)
        ensures
            final(self).spec_seen() == old(self).spec_seen() + texts(batch@),
            final(self).spec_cursor() == next,
            done == (next == 0),
            old(self).consistent() ==> final(self).consistent(),
    {
        let ghost was = self.spec_keys() == unique_in_order(self.spec_seen());
        let mut i: usize = 0;
        let ghost start = self.seen@;
        while i < batch.len()
            invariant
                i <= batch@.len(),
                self.seen@ == start + texts(batch@).take(i as int),
                was ==> texts(self.keys@) == unique_in_order(self.seen@),
            decreases batch@.len() - i,
        {
            let key = batch[i].as_str();
            let ghost before_seen = self.seen@;
            let mut present = false;
            let mut j: usize = 0;
            while j < self.keys.len()
                invariant
                    j <= self.keys@.len(),
                    present == exists|x: int| 0 <= x < j && self.keys@[x]@ == key@,
                decreases self.keys@.len() - j,
            {
                if str_eq(self.keys[j].as_str(), key) {
                    present = true;
                }
                j += 1;
            }
            proof {
                lemma_unique_contains(before_seen, key@);
                if present {
                    let x = choose|x: int| 0 <= x < self.keys@.len() && self.keys@[x]@ == key@;
                    assert(texts(self.keys@)[x] == key@);
                } else {
                    assert forall|x: int| 0 <= x < texts(self.keys@).len() implies texts(self.keys@)[x] != key@ by {
                        assert(texts(self.keys@)[x] == self.keys@[x]@);
                    }
                }
            }
            let ghost new_seen = before_seen.push(key@);
            assert(new_seen.drop_last() =~= before_seen);
            let mut keys = Vec::new();
            std::mem::swap(&mut keys, &mut self.keys);
            if !present {
                keys.push(batch[i].clone());
            }
            proof {
                if was {
                    assert(texts(keys@) =~= unique_in_order(new_seen));
                }
                assert(texts(batch@).take(i + 1) =~= texts(batch@).take(i as int).push(key@));
                assert(new_seen =~= start + texts(batch@).take(i + 1));
            }
            self.keys = keys;
            self.seen = Ghost(new_seen);
            i += 1;
        }
        assert(texts(batch@).take(i as int) =~= texts(batch@));
        self.cursor = next;
        next == 0
    }

    /// The collected keys: every key the scan returned, once each, in
    /// first-seen order.
    pub fn into_keys(self) -> (keys: Vec<String>)
        ensures
            texts(keys@) == self.spec_keys(),
    {
        self.keys
    }
}

/// Lease conversion rounds up by less than a millisecond: the milliseconds
/// sent never shorten the lease, never lengthen it by a whole millisecond,
/// and a positive lease never becomes zero.
pub proof fn law_millis_round_up(nanos: nat)
    ensures
        ceil_millis(nanos) * 1_000_000 >= nanos,
        ceil_millis(nanos) * 1_000_000 < nanos + 1_000_000,
        nanos > 0 ==> ceil_millis(nanos) > 0,
{
    let q = nanos / 1_000_000;
    let r = nanos % 1_000_000;
    assert(nanos == q * 1_000_000 + r && 0 <= r < 1_000_000);
}

/// The digits of a number's decimal text denote that number.
proof fn lemma_digits_of_decimal(n: nat)
    ensures
        all_digits(decimal(n)),
        digits_value(decimal(n)) == n,
    decreases n,
{
    lemma_decimal_digits(n);
    assert forall|i: int| 0 <= i < decimal(n).len() implies #[trigger] digit_value(decimal(n)[i]) is Some by {
        assert(is_digit(decimal(n)[i]));
    }
    if n < 10 {
        assert(decimal(n).drop_last() =~= Seq::<char>::empty());
        assert(digits_value(Seq::<char>::empty()) == 0);
        assert(decimal(n).last() == digit_char(n));
        assert(digit_value(digit_char(n)) == Some(n));
    } else {
        lemma_digits_of_decimal(n / 10);
        assert(decimal(n).drop_last() =~= decimal(n / 10));
        assert(decimal(n).last() == digit_char(n % 10));
        assert(digit_value(digit_char(n % 10)) == Some(n % 10));
        assert(digits_value(decimal(n)) == digits_value(decimal(n / 10)) * 10 + n % 10);
        assert((n / 10) * 10 + n % 10 == n);
    }
}

/// Addresses read back: a non-empty host without `:` that does not begin
/// with `[`, written with a port as `host:port`, parses into that host and
/// that port.
pub proof fn law_address_round_trip(host: Seq<char>, port: u16)
    requires
        host.len() > 0,
        host[0] != '[',
        forall|i: int| 0 <= i < host.len() ==> host[i] != ':',
    ensures
        address_parts(host + ":"@ + decimal(port as nat)) == Some((host, decimal(port as nat))),
        parse_u16_spec(decimal(port as nat)) == Some(port),
{
    reveal_strlit(":");
    let d = decimal(port as nat);
    let a = host + ":"@ + d;
    let k = host.len() as int;
    lemma_decimal_digits(port as nat);
    assert(a[0] == host[0]);
    assert(a[k] == ':');
    assert forall|j: int| k < j < a.len() implies a[j] != ':' by {
        assert(a[j] == d[j - k - 1]);
        assert(is_digit(d[j - k - 1]));
    }
    assert(has_colon(a));
    let f = last_colon(a);
    if f < k {
        assert(a[f] == host[f]);
    }
    assert(f == k);
    assert(a.take(f) =~= host);
    assert(a.skip(f + 1) =~= d);
    lemma_digits_of_decimal(port as nat);
    assert(is_digit(d[0]));
}

/// A write's lease depends on the lease alone: whatever the write condition,
/// `SET key value` comes first; a positive lease is then sent as `PX` with
/// its milliseconds rounded up, and only a zero lease (stored permanently)
/// leaves them out; the condition word, if any, comes last.
pub proof fn law_set_lease_follows_the_lease(key: Seq<char>, value: Seq<u8>, ttl: Duration, condition: WriteCondition)
    ensures
        set_args(key, value, ttl, condition).take(3)
            == seq![ArgView::Text("SET"@), ArgView::Text(key), ArgView::Bytes(value)],
        ttl.total_nanos() > 0 ==> set_args(key, value, ttl, condition).len()
            == 5 + (if condition == WriteCondition::Always { 0int } else { 1int }),
        ttl.total_nanos() > 0 ==> set_args(key, value, ttl, condition)[3] == ArgView::Text("PX"@),
        ttl.total_nanos() > 0 ==> set_args(key, value, ttl, condition)[4]
            == ArgView::Int(ceil_millis(ttl.total_nanos())),
        ttl.total_nanos() == 0 ==> set_args(key, value, ttl, condition).len()
            == 3 + (if condition == WriteCondition::Always { 0int } else { 1int }),
        condition == WriteCondition::IfAbsent ==> set_args(key, value, ttl, condition).last() == ArgView::Text("NX"@),
        condition == WriteCondition::IfPresent ==> set_args(key, value, ttl, condition).last() == ArgView::Text("XX"@),
{
    let a = set_args(key, value, ttl, condition);
    let head = seq![ArgView::Text("SET"@), ArgView::Text(key), ArgView::Bytes(value)];
    let lease = if ttl.total_nanos() == 0 { Seq::<ArgView>::empty() } else {
        seq![ArgView::Text("PX"@), ArgView::Int(ceil_millis(ttl.total_nanos()))]
    };
    let cond = match condition {
        WriteCondition::Always => Seq::<ArgView>::empty(),
        WriteCondition::IfAbsent => seq![ArgView::Text("NX"@)],
        WriteCondition::IfPresent => seq![ArgView::Text("XX"@)],
    };
    assert(a == head + lease + cond);
    assert(a.take(3) =~= head);
    if ttl.total_nanos() > 0 {
        assert(a[3] == lease[0]);
        assert(a[4] == lease[1]);
    }
}

} // verus!
