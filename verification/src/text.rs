//! Small verified text helpers shared by the cache and query modules.

use vstd::prelude::*;

verus! {

/// Appends one character to a string.
///
/// Trusted: calls `String::push`, which its documentation says appends the
/// given character to the end of the string.
#[verifier::external_body]
pub fn push_char(s: &mut String, c: char)
    ensures
        final(s)@ == old(s)@.push(c),
{
    s.push(c);
}

/// The decimal digit character for a value below ten.
pub open spec fn digit_char(d: nat) -> char {
    if d == 0 { '0' } else if d == 1 { '1' } else if d == 2 { '2' } else if d == 3 { '3' }
    else if d == 4 { '4' } else if d == 5 { '5' } else if d == 6 { '6' } else if d == 7 { '7' }
    else if d == 8 { '8' } else { '9' }
}

/// The decimal text of a natural number, without leading zeros.
pub open spec fn decimal(n: nat) -> Seq<char>
    decreases n,
{
    if n < 10 {
        seq![digit_char(n)]
    } else {
        decimal(n / 10).push(digit_char(n % 10))
    }
}

/// Whether a character is a decimal digit.
pub open spec fn is_digit(c: char) -> bool {
    '0' <= c && c <= '9'
}

/// Every character of a decimal text is a digit, and the text is never empty.
pub proof fn lemma_decimal_digits(n: nat)
    ensures
        decimal(n).len() >= 1,
        forall|i: int| 0 <= i < decimal(n).len() ==> is_digit(#[trigger] decimal(n)[i]),
    decreases n,
{
    if n >= 10 {
        lemma_decimal_digits(n / 10);
        assert forall|i: int| 0 <= i < decimal(n).len() implies is_digit(#[trigger] decimal(n)[i]) by {
            if i < decimal(n / 10).len() {
                assert(decimal(n)[i] == decimal(n / 10)[i]);
            }
        }
    }
}

/// Numbers of ten or more have at least two digits.
proof fn lemma_decimal_long(n: nat)
    requires
        n >= 10,
    ensures
        decimal(n).len() >= 2,
{
    lemma_decimal_digits(n / 10);
}

/// Distinct numbers have distinct decimal texts.
pub proof fn lemma_decimal_injective(a: nat, b: nat)
    requires
        decimal(a) == decimal(b),
    ensures
        a == b,
    decreases a,
{
    if a < 10 && b < 10 {
        assert(decimal(a)[0] == digit_char(a));
        assert(decimal(b)[0] == digit_char(b));
    } else if a < 10 {
        lemma_decimal_long(b);
    } else if b < 10 {
        lemma_decimal_long(a);
    } else {
        assert(decimal(a).last() == digit_char(a % 10));
        assert(decimal(b).last() == digit_char(b % 10));
        assert(decimal(a).drop_last() =~= decimal(a / 10));
        assert(decimal(b).drop_last() =~= decimal(b / 10));
        lemma_decimal_injective(a / 10, b / 10);
    }
}

/// Splitting at the first separator: when neither `x` nor `y` holds `sep`,
/// `x` then `sep` then `s` equals `y` then `sep` then `t` only when `x == y`
/// and `s == t`.
pub proof fn lemma_split_at_separator(x: Seq<char>, y: Seq<char>, s: Seq<char>, t: Seq<char>, sep: char)
    requires
        forall|i: int| 0 <= i < x.len() ==> x[i] != sep,
        forall|i: int| 0 <= i < y.len() ==> y[i] != sep,
        x + seq![sep] + s == y + seq![sep] + t,
    ensures
        x == y,
        s == t,
{
    let l = x + seq![sep] + s;
    let r = y + seq![sep] + t;
    if x.len() < y.len() {
        assert(l[x.len() as int] == sep);
        assert(r[x.len() as int] == y[x.len() as int]);
    } else if y.len() < x.len() {
        assert(r[y.len() as int] == sep);
        assert(l[y.len() as int] == x[y.len() as int]);
    }
    assert(x =~= l.take(x.len() as int));
    assert(y =~= r.take(y.len() as int));
    assert(s =~= l.skip(x.len() as int + 1));
    assert(t =~= r.skip(y.len() as int + 1));
}

fn digit(d: u64) -> (c: char)
    requires
        d < 10,
    ensures
        c == digit_char(d as nat),
{
    if d == 0 { '0' } else if d == 1 { '1' } else if d == 2 { '2' } else if d == 3 { '3' }
    else if d == 4 { '4' } else if d == 5 { '5' } else if d == 6 { '6' } else if d == 7 { '7' }
    else if d == 8 { '8' } else { '9' }
}

/// Appends the decimal text of `n` to `out`.
pub fn push_decimal(out: &mut String, n: u64)
    ensures
        final(out)@ == old(out)@ + decimal(n as nat),
    decreases n,
{
    if n < 10 {
        push_char(out, digit(n));
        assert(decimal(n as nat) == seq![digit_char(n as nat)]);
        assert(old(out)@.push(digit_char(n as nat)) =~= old(out)@ + seq![digit_char(n as nat)]);
    } else {
        push_decimal(out, n / 10);
        push_char(out, digit(n % 10));
        assert(old(out)@ + decimal(n as nat) =~= (old(out)@ + decimal((n / 10) as nat)).push(
            digit_char((n % 10) as nat),
        ));
    }
}

/// Returns a new string holding the characters of a string slice.
pub fn owned(s: &str) -> (r: String)
    ensures
        r@ == s@,
{
    s.to_owned()
}

/// Compares two strings character by character.
pub fn str_eq(a: &str, b: &str) -> (r: bool)
    ensures
        r == (a@ == b@),
{
    let n = a.unicode_len();
    if n != b.unicode_len() {
        return false;
    }
    let mut i: usize = 0;
    while i < n
        invariant
            n == a@.len(),
            n == b@.len(),
            i <= n,
            forall|j: int| 0 <= j < i ==> a@[j] == b@[j],
        decreases n - i,
    {
        if a.get_char(i) != b.get_char(i) {
            return false;
        }
        i += 1;
    }
    assert(a@ =~= b@);
    true
}

/// Whether `s` begins with `prefix`.
pub fn starts_with(s: &str, prefix: &str) -> (r: bool)
    ensures
        r == (prefix@.len() <= s@.len() && s@.subrange(0, prefix@.len() as int) == prefix@),
{
    let n = prefix.unicode_len();
    if n > s.unicode_len() {
        return false;
    }
    let mut i: usize = 0;
    while i < n
        invariant
            n == prefix@.len(),
            n <= s@.len(),
            i <= n,
            forall|j: int| 0 <= j < i ==> s@[j] == prefix@[j],
        decreases n - i,
    {
        if s.get_char(i) != prefix.get_char(i) {
            assert(s@.subrange(0, n as int)[i as int] != prefix@[i as int]);
            return false;
        }
        i += 1;
    }
    assert(s@.subrange(0, n as int) =~= prefix@);
    true
}

/// The value of a decimal digit character, or `None` for any other one.
pub open spec fn digit_value(c: char) -> Option<nat> {
    if '0' <= c && c <= '9' { Some((c as nat - '0' as nat) as nat) } else { None }
}

/// Whether every character is a decimal digit.
pub open spec fn all_digits(s: Seq<char>) -> bool {
    forall|i: int| 0 <= i < s.len() ==> #[trigger] digit_value(s[i]) is Some
}

/// The number a string of decimal digits denotes.
pub open spec fn digits_value(s: Seq<char>) -> nat
    decreases s.len(),
{
    if s.len() == 0 {
        0
    } else {
        digits_value(s.drop_last()) * 10 + digit_value(s.last()).unwrap()
    }
}

/// The value of a decimal digit character, or `None` for any other one.
pub fn char_digit(c: char) -> (d: Option<u32>)
    ensures
        d is Some == digit_value(c) is Some,
        d matches Some(v) ==> v == digit_value(c).unwrap(),
{
    if '0' <= c && c <= '9' {
        Some((c as u32) - ('0' as u32))
    } else {
        None
    }
}

/// What std's `i64::from_str` accepts: an optional `+` or `-` followed by
/// at least one decimal digit, denoting a value in the `i64` range.
pub open spec fn parse_i64_spec(s: Seq<char>) -> Option<i64> {
    let neg = s.len() > 0 && s[0] == '-';
    let body = if s.len() > 0 && (s[0] == '+' || s[0] == '-') { s.skip(1) } else { s };
    if body.len() > 0 && all_digits(body) && (if neg {
        digits_value(body) <= 0x8000_0000_0000_0000
    } else {
        digits_value(body) <= 0x7fff_ffff_ffff_ffff
    }) {
        Some(if neg { (-(digits_value(body) as int)) as i64 } else { digits_value(body) as i64 })
    } else {
        None
    }
}

/// Parses a signed 64-bit integer as std's `i64::from_str` does.
pub fn parse_i64(s: &str) -> (r: Option<i64>)
    ensures
        r == parse_i64_spec(s@),
{
    let n = s.unicode_len();
    let signed = n > 0 && (s.get_char(0) == '+' || s.get_char(0) == '-');
    let neg = n > 0 && s.get_char(0) == '-';
    let start: usize = if signed { 1 } else { 0 };
    let ghost body = if s@.len() > 0 && (s@[0] == '+' || s@[0] == '-') { s@.skip(1) } else { s@ };
    assert(body =~= s@.subrange(start as int, n as int));
    if start >= n {
        return None;
    }
    // Accumulate with a cap just above the magnitude range, so nothing overflows.
    let cap: u128 = 0x8000_0000_0000_0001;
    let mut acc: u128 = 0;
    let mut i: usize = start;
    while i < n
        invariant
            n == s@.len(),
            start <= i <= n,
            cap == 0x8000_0000_0000_0001,
            body == s@.subrange(start as int, n as int),
            body == (if s@.len() > 0 && (s@[0] == '+' || s@[0] == '-') { s@.skip(1) } else { s@ }),
            all_digits(s@.subrange(start as int, i as int)),
            acc as nat == if digits_value(s@.subrange(start as int, i as int)) < cap {
                digits_value(s@.subrange(start as int, i as int))
            } else {
                cap as nat
            },
        decreases n - i,
    {
        let c = s.get_char(i);
        let ghost prefix = s@.subrange(start as int, i as int);
        let ghost next = s@.subrange(start as int, i + 1);
        assert(next.drop_last() =~= prefix);
        assert(next.last() == c);
        match char_digit(c) {
            None => {
                assert(body[i - start] == c);
                assert(!(digit_value(body[i - start]) is Some));
                assert(!all_digits(body));
                assert(parse_i64_spec(s@) is None);
                return None;
            },
            Some(d) => {
                let v = acc * 10 + d as u128;
                acc = if v > cap { cap } else { v };
                assert(all_digits(next)) by {
                    assert forall|j: int| 0 <= j < next.len() implies #[trigger] digit_value(next[j]) is Some by {
                        if j < prefix.len() {
                            assert(next[j] == prefix[j]);
                        }
                    }
                }
            },
        }
        i += 1;
    }
    assert(s@.subrange(start as int, i as int) == body);
    if neg {
        if acc > 0x8000_0000_0000_0000 {
            None
        } else if acc == 0x8000_0000_0000_0000 {
            Some(i64::MIN)
        } else {
            Some(0i64 - (acc as i64))
        }
    } else {
        if acc > 0x7fff_ffff_ffff_ffff {
            None
        } else {
            Some(acc as i64)
        }
    }
}


} // verus!
