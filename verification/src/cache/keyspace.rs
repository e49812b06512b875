//! Central key construction and database-namespace validation.
//!
//! Four strategies share one backend storage, so each needs its own key
//! segment. Key format: `{prefix}:{namespace}:cache:{strategy}:{segment}`,
//! for example `app:orders:cache:doc:entry:order-123`.

use vstd::prelude::*;
use crate::cache::error::{CacheError, Result};
use crate::text::{
    decimal, digit_char, is_digit, lemma_decimal_digits, lemma_decimal_injective, lemma_split_at_separator,
    push_char, push_decimal, str_eq,
};

verus! {

/// The database head for one selection: the prefix and namespace segments
/// when non-empty, the embedded numeric index when requested, then `cache:`.
pub open spec fn head_text(prefix: Seq<char>, namespace: Seq<char>, db: nat, embed_db: bool) -> Seq<char> {
    (if prefix.len() > 0 { prefix + ":"@ } else { Seq::empty() })
        + (if namespace.len() > 0 { namespace + ":"@ } else { Seq::empty() })
        + (if embed_db { "db"@ + decimal(db) + ":"@ } else { Seq::empty() })
        + "cache:"@
}

/// Immutable prefix builder shared by every strategy in one selected database.
///
/// Centralizing all key formats prevents strategy collisions and ensures
/// administrative deletion uses exactly the same database boundary as normal
/// operations.
#[derive(Debug)]
pub struct Keyspace {
    /// Fully qualified database head ending in `cache:`.
    base: String,
}

impl View for Keyspace {
    type V = Seq<char>;

    closed spec fn view(&self) -> Seq<char> {
        self.base@
    }
}

impl Clone for Keyspace {
    fn clone(&self) -> (k: Self)
        ensures
            k@ == self@,
    {
        Keyspace { base: self.base.clone() }
    }
}

impl Keyspace {
    /// Builds the collision-safe key prefix for one selected database.
    ///
    /// `prefix` separates applications and `namespace` identifies a named
    /// database. When a backend has no native databases, `embed_db` adds the
    /// selected numeric index as `db{index}`.
    pub fn new(prefix: &str, namespace: &str, db: usize, embed_db: bool) -> (k: Keyspace)
        ensures
            k@ == head_text(prefix@, namespace@, db as nat, embed_db),
    {
        let mut base = String::new();
        if prefix.unicode_len() > 0 {
            base.append(prefix);
            base.append(":");
        }
        let ghost after_prefix = base@;
        if namespace.unicode_len() > 0 {
            base.append(namespace);
            base.append(":");
        }
        let ghost after_namespace = base@;
        if embed_db {
            base.append("db");
            push_decimal(&mut base, db as u64);
            base.append(":");
        }
        let ghost after_db = base@;
        base.append("cache:");
        proof {
            let p = if prefix@.len() > 0 { prefix@ + ":"@ } else { Seq::<char>::empty() };
            let n = if namespace@.len() > 0 { namespace@ + ":"@ } else { Seq::<char>::empty() };
            let d = if embed_db { "db"@ + decimal(db as nat) + ":"@ } else { Seq::<char>::empty() };
            assert(after_prefix =~= p);
            assert(after_namespace =~= p + n);
            assert(after_db =~= p + n + d);
            assert(base@ =~= p + n + d + "cache:"@);
        }
        Keyspace { base }
    }

    /// Returns the prefix shared by every strategy in this database.
    pub fn head(&self) -> (h: &str)
        ensures
            h@ == self@,
    {
        self.base.as_str()
    }

    fn qualify(&self, segment: &str, id: &str) -> (k: String)
        ensures
            k@ == self@ + segment@ + id@,
    {
        let mut k = self.base.clone();
        k.append(segment);
        k.append(id);
        assert(k@ =~= self@ + segment@ + id@);
        k
    }

    /// Qualifies a Document value ID: `{head}doc:entry:{id}`.
    pub fn doc_entry(&self, id: &str) -> (k: String)
        ensures
            k@ == self@ + "doc:entry:"@ + id@,
    {
        self.qualify("doc:entry:", id)
    }

    /// Returns the shared Document enumeration-set key: `{head}doc:index`.
    pub fn doc_index(&self) -> (k: String)
        ensures
            k@ == self@ + "doc:index"@,
    {
        let k = self.qualify("doc:index", "");
        proof { reveal_strlit(""); }
        assert(k@ =~= self@ + "doc:index"@);
        k
    }

    /// Qualifies a caller-provided Volatile key: `{head}vol:{key}`.
    pub fn vol_entry(&self, key: &str) -> (k: String)
        ensures
            k@ == self@ + "vol:"@ + key@,
    {
        self.qualify("vol:", key)
    }

    /// Qualifies an Indexed value ID: `{head}idx:entry:{id}`.
    pub fn idx_entry(&self, id: &str) -> (k: String)
        ensures
            k@ == self@ + "idx:entry:"@ + id@,
    {
        self.qualify("idx:entry:", id)
    }

    /// Returns the shared Indexed enumeration-set key: `{head}idx:index`.
    pub fn idx_index(&self) -> (k: String)
        ensures
            k@ == self@ + "idx:index"@,
    {
        let k = self.qualify("idx:index", "");
        proof { reveal_strlit(""); }
        assert(k@ =~= self@ + "idx:index"@);
        k
    }

    /// Returns the membership-set key for one secondary field/value pair:
    /// `{head}idx:by:{field}:{value}`.
    pub fn idx_by_field(&self, field: &str, value: &str) -> (k: String)
        ensures
            k@ == self@ + "idx:by:"@ + field@ + ":"@ + value@,
    {
        let mut k = self.qualify("idx:by:", field);
        k.append(":");
        k.append(value);
        assert(k@ =~= self@ + "idx:by:"@ + field@ + ":"@ + value@);
        k
    }

    /// Returns the field-metadata set key for one Indexed entry:
    /// `{head}idx:fields:{id}`.
    pub fn idx_fields(&self, id: &str) -> (k: String)
        ensures
            k@ == self@ + "idx:fields:"@ + id@,
    {
        self.qualify("idx:fields:", id)
    }

    /// Qualifies an Aside value-frame ID: `{head}aside:entry:{id}`.
    pub fn aside_entry(&self, id: &str) -> (k: String)
        ensures
            k@ == self@ + "aside:entry:"@ + id@,
    {
        self.qualify("aside:entry:", id)
    }

    /// Qualifies the reserved distributed-lock key for an Aside ID:
    /// `{head}aside:lock:{id}`. Building the key acquires nothing.
    pub fn aside_lock(&self, id: &str) -> (k: String)
        ensures
            k@ == self@ + "aside:lock:"@ + id@,
    {
        self.qualify("aside:lock:", id)
    }
}

/// Whether a character sequence contains a given character.
pub open spec fn has_char(s: Seq<char>, c: char) -> bool {
    exists|i: int| 0 <= i < s.len() && s[i] == c
}

/// Text of the error for a name that holds a colon.
pub open spec fn colon_name_text(name: Seq<char>) -> Seq<char> {
    "database name '"@ + name + "' cannot contain ':' (separates prefix from name)"@
}

fn find_char(s: &str, c: char) -> (r: bool)
    ensures
        r == has_char(s@, c),
{
    let n = s.unicode_len();
    let mut i: usize = 0;
    while i < n
        invariant
            n == s@.len(),
            i <= n,
            forall|j: int| 0 <= j < i ==> s@[j] != c,
        decreases n - i,
    {
        if s.get_char(i) == c {
            return true;
        }
        i += 1;
    }
    false
}

/// Validates one named database segment before key construction.
///
/// Names must be non-empty and cannot contain `:`, because colons delimit
/// independently controlled keyspace segments.
pub fn check_namespace(name: &str) -> (r: Result<()>)
    ensures
        name@.len() == 0 ==> (r matches Err(CacheError::Internal(m))
            && m@ == "database name cannot be empty"@),
        name@.len() > 0 && has_char(name@, ':') ==> (r matches Err(CacheError::Internal(m))
            && m@ == colon_name_text(name@)),
        r is Ok <==> (name@.len() > 0 && !has_char(name@, ':')),
{
    if name.unicode_len() == 0 {
        return Err(CacheError::Internal(String::from_str("database name cannot be empty")));
    }
    if find_char(name, ':') {
        let mut m = String::from_str("database name '");
        m.append(name);
        m.append("' cannot contain ':' (separates prefix from name)");
        assert(m@ =~= colon_name_text(name@));
        return Err(CacheError::Internal(m));
    }
    Ok(())
}

/// The text `format!("{:?}", list)` gives for a list of strings: the debug
/// form std writes, which quotes and escapes each string.
pub uninterp spec fn debug_list_text(items: Seq<Seq<char>>) -> Seq<char>;

/// The views of a list of strings.
pub open spec fn string_views(items: Seq<String>) -> Seq<Seq<char>> {
    items.map_values(|s: String| s@)
}

/// Trusted: formats the list with std's `Debug` for `[String]`; the result is
/// named by `debug_list_text` and depends on the strings alone.
#[verifier::external_body]
fn debug_listing(known: &[String]) -> (r: String)
    ensures
        r@ == debug_list_text(string_views(known@)),
{
    format!("{:?}", known)
}

/// Text of the error for a name missing from a non-empty allowlist.
pub open spec fn unknown_name_text(name: Seq<char>, listing: Seq<char>) -> Seq<char> {
    "database '"@ + name + "' is not one of the configured databases "@ + listing
}

/// Builds the error for a database name that the allowlist, shown as
/// `listing`, does not hold.
pub fn unknown_database(name: &str, listing: String) -> (e: CacheError)
    ensures
        e matches CacheError::Internal(m) && m@ == unknown_name_text(name@, listing@),
{
    let mut m = String::from_str("database '");
    m.append(name);
    m.append("' is not one of the configured databases ");
    m.append(listing.as_str());
    assert(m@ =~= unknown_name_text(name@, listing@));
    CacheError::Internal(m)
}

/// Whether `name` is one of the configured names.
pub open spec fn is_known(name: Seq<char>, known: Seq<String>) -> bool {
    exists|i: int| 0 <= i < known.len() && known[i]@ == name
}

/// Validates a database name against an optional configured allowlist.
///
/// An empty allowlist permits every name; otherwise the name must equal one
/// of the configured names exactly.
pub fn check_known(name: &str, known: &[String]) -> (r: Result<()>)
    ensures
        r is Ok <==> (known@.len() == 0 || is_known(name@, known@)),
        r is Err ==> (r matches Err(CacheError::Internal(m))
            && m@ == unknown_name_text(name@, debug_list_text(string_views(known@)))),
{
    if known.len() == 0 {
        return Ok(());
    }
    let mut i: usize = 0;
    while i < known.len()
        invariant
            i <= known@.len(),
            forall|j: int| 0 <= j < i ==> known@[j]@ != name@,
        decreases known@.len() - i,
    {
        if str_eq(known[i].as_str(), name) {
            return Ok(());
        }
        i += 1;
    }
    Err(unknown_database(name, debug_listing(known)))
}

/// The lowercase hexadecimal digit character for a value below sixteen.
pub open spec fn hex_digit_char(d: nat) -> char {
    if d < 10 { digit_char(d) } else if d == 10 { 'a' } else if d == 11 { 'b' } else if d == 12 { 'c' }
    else if d == 13 { 'd' } else if d == 14 { 'e' } else { 'f' }
}

/// The lowercase hexadecimal text of a natural number, without leading zeros.
pub open spec fn hex(n: nat) -> Seq<char>
    decreases n,
{
    if n < 16 {
        seq![hex_digit_char(n)]
    } else {
        hex(n / 16).push(hex_digit_char(n % 16))
    }
}

fn hex_digit(d: u128) -> (c: char)
    requires
        d < 16,
    ensures
        c == hex_digit_char(d as nat),
{
    if d == 0 { '0' } else if d == 1 { '1' } else if d == 2 { '2' } else if d == 3 { '3' }
    else if d == 4 { '4' } else if d == 5 { '5' } else if d == 6 { '6' } else if d == 7 { '7' }
    else if d == 8 { '8' } else if d == 9 { '9' } else if d == 10 { 'a' } else if d == 11 { 'b' }
    else if d == 12 { 'c' } else if d == 13 { 'd' } else if d == 14 { 'e' } else { 'f' }
}

fn push_hex(out: &mut String, n: u128)
    ensures
        final(out)@ == old(out)@ + hex(n as nat),
    decreases n,
{
    if n < 16 {
        push_char(out, hex_digit(n));
        assert(old(out)@.push(hex_digit_char(n as nat)) =~= old(out)@ + hex(n as nat));
    } else {
        push_hex(out, n / 16);
        push_char(out, hex_digit(n % 16));
        assert(old(out)@ + hex(n as nat) =~= (old(out)@ + hex((n / 16) as nat)).push(
            hex_digit_char((n % 16) as nat),
        ));
    }
}

/// Formats a generated ID as `{timestamp_hex}-{counter_hex}`.
///
/// IDs combine wall-clock nanoseconds with a process-wide counter; the caller
/// reads both and this function lays them out.
pub fn format_id(nanos: u128, counter: u64) -> (id: String)
    ensures
        id@ == hex(nanos as nat) + "-"@ + hex(counter as nat),
{
    let mut id = String::new();
    push_hex(&mut id, nanos);
    id.append("-");
    push_hex(&mut id, counter as u128);
    assert(id@ =~= hex(nanos as nat) + "-"@ + hex(counter as nat));
    id
}

/// The text before the index in an embedded head: prefix and namespace
/// segments, then `db`.
spec fn embedded_lead(prefix: Seq<char>, namespace: Seq<char>) -> Seq<char> {
    (if prefix.len() > 0 { prefix + ":"@ } else { Seq::empty() })
        + (if namespace.len() > 0 { namespace + ":"@ } else { Seq::empty() })
        + "db"@
}

/// Keyspaces that embed different database indexes under the same prefix
/// and namespace never share a key: whatever follows each head, a key under
/// one head is never a key under the other.
pub proof fn law_embedded_indexes_never_collide(
    prefix: Seq<char>,
    namespace: Seq<char>,
    a: nat,
    b: nat,
    rest_a: Seq<char>,
    rest_b: Seq<char>,
)
    requires
        a != b,
    ensures
        head_text(prefix, namespace, a, true) + rest_a != head_text(prefix, namespace, b, true) + rest_b,
{
    reveal_strlit(":");
    let lead = embedded_lead(prefix, namespace);
    let ka = head_text(prefix, namespace, a, true) + rest_a;
    let kb = head_text(prefix, namespace, b, true) + rest_b;
    let ta = decimal(a) + seq![':'] + ("cache:"@ + rest_a);
    let tb = decimal(b) + seq![':'] + ("cache:"@ + rest_b);
    assert(ka =~= lead + ta);
    assert(kb =~= lead + tb);
    if ka == kb {
        assert(ta =~= ka.skip(lead.len() as int));
        assert(tb =~= kb.skip(lead.len() as int));
        lemma_decimal_digits(a);
        lemma_decimal_digits(b);
        assert forall|i: int| 0 <= i < decimal(a).len() implies decimal(a)[i] != ':' by {
            assert(is_digit(decimal(a)[i]));
        }
        assert forall|i: int| 0 <= i < decimal(b).len() implies decimal(b)[i] != ':' by {
            assert(is_digit(decimal(b)[i]));
        }
        lemma_split_at_separator(decimal(a), decimal(b), "cache:"@ + rest_a, "cache:"@ + rest_b, ':');
        lemma_decimal_injective(a, b);
    }
}

/// Distinct valid database names under the same prefix never share a key:
/// a valid name is non-empty and holds no `:`, so the colon after it marks
/// where it ends.
pub proof fn law_named_databases_never_collide(
    prefix: Seq<char>,
    first: Seq<char>,
    second: Seq<char>,
    rest_first: Seq<char>,
    rest_second: Seq<char>,
)
    requires
        first != second,
        first.len() > 0,
        !has_char(first, ':'),
        second.len() > 0,
        !has_char(second, ':'),
    ensures
        head_text(prefix, first, 0, false) + rest_first != head_text(prefix, second, 0, false) + rest_second,
{
    reveal_strlit(":");
    let lead = if prefix.len() > 0 { prefix + ":"@ } else { Seq::<char>::empty() };
    let k1 = head_text(prefix, first, 0, false) + rest_first;
    let k2 = head_text(prefix, second, 0, false) + rest_second;
    let t1 = first + seq![':'] + ("cache:"@ + rest_first);
    let t2 = second + seq![':'] + ("cache:"@ + rest_second);
    assert(k1 =~= lead + t1);
    assert(k2 =~= lead + t2);
    if k1 == k2 {
        assert(t1 =~= k1.skip(lead.len() as int));
        assert(t2 =~= k2.skip(lead.len() as int));
        lemma_split_at_separator(first, second, "cache:"@ + rest_first, "cache:"@ + rest_second, ':');
    }
}

/// Every character of a hexadecimal text is a digit or `a` to `f`, and the
/// text is never empty.
proof fn lemma_hex_chars(n: nat)
    ensures
        hex(n).len() >= 1,
        forall|i: int| 0 <= i < hex(n).len() ==> #[trigger] hex(n)[i] != '-',
    decreases n,
{
    if n >= 16 {
        lemma_hex_chars(n / 16);
        assert forall|i: int| 0 <= i < hex(n).len() implies #[trigger] hex(n)[i] != '-' by {
            if i < hex(n / 16).len() {
                assert(hex(n)[i] == hex(n / 16)[i]);
            }
        }
    }
}

/// Distinct numbers have distinct hexadecimal texts.
proof fn lemma_hex_injective(a: nat, b: nat)
    requires
        hex(a) == hex(b),
    ensures
        a == b,
    decreases a,
{
    if a < 16 && b < 16 {
        assert(hex(a)[0] == hex_digit_char(a));
        assert(hex(b)[0] == hex_digit_char(b));
        assert(a == b);
    } else if a < 16 {
        lemma_hex_chars(b / 16);
        assert(hex(b).len() >= 2);
    } else if b < 16 {
        lemma_hex_chars(a / 16);
        assert(hex(a).len() >= 2);
    } else {
        assert(hex(a).last() == hex_digit_char(a % 16));
        assert(hex(b).last() == hex_digit_char(b % 16));
        assert(hex(a).drop_last() =~= hex(a / 16));
        assert(hex(b).drop_last() =~= hex(b / 16));
        lemma_hex_injective(a / 16, b / 16);
    }
}

/// Generated IDs differ whenever their timestamps or their counters differ,
/// so a process whose counter never repeats a value never repeats an ID.
pub proof fn law_ids_are_distinct(nanos_a: nat, counter_a: nat, nanos_b: nat, counter_b: nat)
    requires
        nanos_a != nanos_b || counter_a != counter_b,
    ensures
        hex(nanos_a) + "-"@ + hex(counter_a) != hex(nanos_b) + "-"@ + hex(counter_b),
{
    reveal_strlit("-");
    let ia = hex(nanos_a) + "-"@ + hex(counter_a);
    let ib = hex(nanos_b) + "-"@ + hex(counter_b);
    assert(ia =~= hex(nanos_a) + seq!['-'] + hex(counter_a));
    assert(ib =~= hex(nanos_b) + seq!['-'] + hex(counter_b));
    if ia == ib {
        lemma_hex_chars(nanos_a);
        lemma_hex_chars(nanos_b);
        lemma_split_at_separator(hex(nanos_a), hex(nanos_b), hex(counter_a), hex(counter_b), '-');
        lemma_hex_injective(nanos_a, nanos_b);
        lemma_hex_injective(counter_a, counter_b);
    }
}

/// The segment each key builder writes right after the head: 0 `doc_entry`,
/// 1 `doc_index`, 2 `vol_entry`, 3 `idx_entry`, 4 `idx_index`,
/// 5 `idx_by_field`, 6 `idx_fields`, 7 `aside_entry`, 8 `aside_lock`.
pub open spec fn builder_tag(kind: int) -> Seq<char> {
    if kind == 0 { "doc:entry:"@ }
    else if kind == 1 { "doc:index"@ }
    else if kind == 2 { "vol:"@ }
    else if kind == 3 { "idx:entry:"@ }
    else if kind == 4 { "idx:index"@ }
    else if kind == 5 { "idx:by:"@ }
    else if kind == 6 { "idx:fields:"@ }
    else if kind == 7 { "aside:entry:"@ }
    else { "aside:lock:"@ }
}

/// A position where the segments of two different builders hold different
/// characters: the first character tells the strategies apart, and within
/// a strategy the character after its `:` does.
spec fn distinguishing_position(k1: int, k2: int) -> int {
    if builder_tag(k1)[0] != builder_tag(k2)[0] {
        0
    } else if builder_tag(k1)[0] == 'a' {
        6
    } else {
        4
    }
}

/// Strategies cannot collide: two different key builders of one keyspace
/// never produce the same key, whatever follows their segments (for
/// `idx_by_field` that is `field:value`, for `doc_index` and `idx_index`
/// nothing).
pub proof fn law_key_builders_never_collide(head: Seq<char>, k1: int, k2: int, rest1: Seq<char>, rest2: Seq<char>)
    requires
        0 <= k1 < 9,
        0 <= k2 < 9,
        k1 != k2,
    ensures
        head + builder_tag(k1) + rest1 != head + builder_tag(k2) + rest2,
{
    reveal_strlit("doc:entry:");
    reveal_strlit("doc:index");
    reveal_strlit("vol:");
    reveal_strlit("idx:entry:");
    reveal_strlit("idx:index");
    reveal_strlit("idx:by:");
    reveal_strlit("idx:fields:");
    reveal_strlit("aside:entry:");
    reveal_strlit("aside:lock:");
    let t1 = builder_tag(k1);
    let t2 = builder_tag(k2);
    let p = distinguishing_position(k1, k2);
    assert(0 <= p < t1.len() && p < t2.len() && t1[p] != t2[p]);
    let a = head + t1 + rest1;
    let b = head + t2 + rest2;
    let i = head.len() + p;
    assert(a[i] == t1[p]);
    assert(b[i] == t2[p]);
}

} // verus!
