//! Bounded deletion of one cache database namespace.
//!
//! Dropping a database scans every key under its literal keyspace head,
//! checks that the scanner stayed under that head, counts each key once, and
//! deletes in batches of at most [`DROP_BATCH`] keys. If a later batch fails,
//! earlier batches remain deleted and the failure reports how many were.

use vstd::prelude::*;
use crate::cache::error::{CacheError, Result};
use crate::text::{push_char, starts_with, str_eq};

verus! {

/// The most keys one delete round trip removes.
pub const DROP_BATCH: usize = 256;

/// Whether a character is a glob metacharacter that needs escaping.
pub open spec fn is_glob_meta(c: char) -> bool {
    c == '*' || c == '?' || c == '[' || c == ']' || c == '\\'
}

/// The literal text `s` written as a glob pattern: each metacharacter is
/// preceded by a backslash.
pub open spec fn glob_escape(s: Seq<char>) -> Seq<char>
    decreases s.len(),
{
    if s.len() == 0 {
        Seq::empty()
    } else {
        glob_escape(s.drop_last()) + if is_glob_meta(s.last()) {
            seq!['\\', s.last()]
        } else {
            seq![s.last()]
        }
    }
}

/// Embeds a literal keyspace head into the scanner's glob-style pattern:
/// the escaped head followed by `*`.
pub fn prefix_pattern(head: &str) -> (pattern: String)
    ensures
        pattern@ == glob_escape(head@) + "*"@,
{
    let n = head.unicode_len();
    let mut pattern = String::new();
    let mut i: usize = 0;
    while i < n
        invariant
            n == head@.len(),
            i <= n,
            pattern@ == glob_escape(head@.take(i as int)),
        decreases n - i,
    {
        let c = head.get_char(i);
        proof {
            assert(head@.take(i + 1).drop_last() =~= head@.take(i as int));
            assert(head@.take(i + 1).last() == c);
        }
        let ghost before = pattern@;
        if c == '*' || c == '?' || c == '[' || c == ']' || c == '\\' {
            push_char(&mut pattern, '\\');
        }
        push_char(&mut pattern, c);
        assert(pattern@ =~= glob_escape(head@.take(i + 1)));
        i += 1;
    }
    assert(head@.take(i as int) =~= head@);
    pattern.append("*");
    pattern
}

/// The texts of a list of strings.
pub open spec fn texts(v: Seq<String>) -> Seq<Seq<char>> {
    v.map_values(|s: String| s@)
}

/// The first occurrence of every key, in order.
pub open spec fn first_occurrences(s: Seq<Seq<char>>) -> Seq<Seq<char>>
    decreases s.len(),
{
    if s.len() == 0 {
        Seq::empty()
    } else {
        first_occurrences(s.drop_last()) + if s.drop_last().contains(s.last()) {
            Seq::empty()
        } else {
            seq![s.last()]
        }
    }
}

/// Whether `key` lies under the literal head.
pub open spec fn under(head: Seq<char>, key: Seq<char>) -> bool {
    head.len() <= key.len() && key.subrange(0, head.len() as int) == head
}

proof fn lemma_first_occurrences_contains(s: Seq<Seq<char>>, k: Seq<char>)
    ensures
        first_occurrences(s).contains(k) <==> s.contains(k),
    decreases s.len(),
{
    if s.len() > 0 {
        lemma_first_occurrences_contains(s.drop_last(), k);
        if s.contains(k) && k != s.last() {
            let i = choose|i: int| 0 <= i < s.len() && s[i] == k;
            assert(s.drop_last()[i] == k);
        }
        if s.drop_last().contains(k) {
            let i = choose|i: int| 0 <= i < s.drop_last().len() && s.drop_last()[i] == k;
            assert(s[i] == k);
        }
        if first_occurrences(s).contains(k) && !first_occurrences(s.drop_last()).contains(k) {
            assert(first_occurrences(s).last() == k || first_occurrences(s.drop_last()).contains(k));
        }
        if first_occurrences(s.drop_last()).contains(k) {
            let i = choose|i: int| 0 <= i < first_occurrences(s.drop_last()).len() && first_occurrences(s.drop_last())[i] == k;
            assert(first_occurrences(s)[i] == k);
        }
        if s.last() == k && !s.drop_last().contains(k) {
            assert(first_occurrences(s)[first_occurrences(s).len() - 1] == k);
        }
    }
}

/// Checks the scanned keys and counts each once: every key must lie under
/// `head` (else the drop fails before deleting anything), and repeated keys
/// from a moving cursor are kept only at their first occurrence.
pub fn drop_keys(head: &str, scanned: &[String]) -> (r: Result<Vec<String>>)
    ensures
        (exists|i: int| 0 <= i < scanned@.len() && !under(head@, #[trigger] scanned@[i]@))
            ==> (r matches Err(CacheError::Internal(m))
                && m@ == "scanner returned a key outside the requested prefix"@),
        (forall|i: int| 0 <= i < scanned@.len() ==> under(head@, #[trigger] scanned@[i]@))
            ==> (r matches Ok(keys) && texts(keys@) == first_occurrences(texts(scanned@))),
{
    let mut i: usize = 0;
    while i < scanned.len()
        invariant
            i <= scanned@.len(),
            forall|j: int| 0 <= j < i ==> under(head@, #[trigger] scanned@[j]@),
        decreases scanned@.len() - i,
    {
        if !starts_with(scanned[i].as_str(), head) {
            return Err(CacheError::Internal(String::from_str("scanner returned a key outside the requested prefix")));
        }
        i += 1;
    }
    let ghost all = texts(scanned@);
    let mut keys: Vec<String> = Vec::new();
    let mut k: usize = 0;
    while k < scanned.len()
        invariant
            k <= scanned@.len(),
            all == texts(scanned@),
            texts(keys@) == first_occurrences(all.take(k as int)),
        decreases scanned@.len() - k,
    {
        let key = scanned[k].as_str();
        proof {
            assert(all.take(k + 1).drop_last() =~= all.take(k as int));
            assert(all.take(k + 1).last() == key@);
        }
        let mut seen = false;
        let mut j: usize = 0;
        while j < keys.len()
            invariant
                j <= keys@.len(),
                seen == exists|x: int| 0 <= x < j && keys@[x]@ == key@,
            decreases keys@.len() - j,
        {
            if str_eq(keys[j].as_str(), key) {
                seen = true;
            }
            j += 1;
        }
        proof {
            lemma_first_occurrences_contains(all.take(k as int), key@);
            if seen {
                let x = choose|x: int| 0 <= x < keys@.len() && keys@[x]@ == key@;
                assert(texts(keys@)[x] == key@);
            } else {
                assert forall|x: int| 0 <= x < texts(keys@).len() implies texts(keys@)[x] != key@ by {
                    assert(texts(keys@)[x] == keys@[x]@);
                }
            }
        }
        let ghost before = keys@;
        if !seen {
            keys.push(scanned[k].clone());
        }
        assert(texts(keys@) =~= first_occurrences(all.take(k + 1)));
        k += 1;
    }
    assert(all.take(k as int) =~= all);
    Ok(keys)
}

/// The keys of batch `b`: positions `b * DROP_BATCH` up to the next
/// multiple, or to the end.
pub open spec fn batch_range(ks: Seq<Seq<char>>, b: int) -> Seq<Seq<char>> {
    ks.subrange(b * DROP_BATCH, if (b + 1) * DROP_BATCH < ks.len() { (b + 1) * DROP_BATCH } else { ks.len() as int })
}

/// Splits the keys into delete batches of at most [`DROP_BATCH`] keys, in
/// order; only the last batch may be shorter, and none is empty.
pub fn drop_batches(keys: &[String]) -> (batches: Vec<Vec<String>>)
    ensures
        batches@.len() == (keys@.len() + DROP_BATCH - 1) / (DROP_BATCH as int),
        forall|b: int| 0 <= b < batches@.len() ==> #[trigger] texts(batches@[b]@)
            == batch_range(texts(keys@), b),
{
    let mut batches: Vec<Vec<String>> = Vec::new();
    let mut start: usize = 0;
    let n = keys.len();
    while start < n
        invariant
            n == keys@.len(),
            start <= n,
            start == batches@.len() * DROP_BATCH,
            forall|b: int| 0 <= b < batches@.len() ==> #[trigger] texts(batches@[b]@)
                == texts(keys@).subrange(b * DROP_BATCH, if (b + 1) * DROP_BATCH < keys@.len() {
                    (b + 1) * DROP_BATCH
                } else {
                    keys@.len() as int
                }),
        decreases n - start,
    {
        let end = if n - start > DROP_BATCH { start + DROP_BATCH } else { n };
        let mut batch: Vec<String> = Vec::new();
        let mut i: usize = start;
        while i < end
            invariant
                start <= i <= end,
                end <= n,
                n == keys@.len(),
                texts(batch@) == texts(keys@).subrange(start as int, i as int),
            decreases end - i,
        {
            let c = keys[i].clone();
            let ghost before = batch@;
            batch.push(c);
            assert(texts(batch@) =~= texts(before).push(keys@[i as int]@));
            assert(texts(batch@) =~= texts(keys@).subrange(start as int, i + 1));
            i += 1;
        }
        let ghost before = batches@;
        batches.push(batch);
        proof {
            let b = before.len() as int;
            assert(b * DROP_BATCH == start);
            assert((b + 1) * DROP_BATCH == start + DROP_BATCH);
            assert forall|x: int| 0 <= x < batches@.len() implies #[trigger] texts(batches@[x]@)
                == texts(keys@).subrange(x * DROP_BATCH, if (x + 1) * DROP_BATCH < keys@.len() {
                    (x + 1) * DROP_BATCH
                } else {
                    keys@.len() as int
                }) by {
                if x < b {
                    assert(batches@[x] == before[x]);
                }
            }
        }
        start = end;
        if end == n {
            assert((n + DROP_BATCH - 1) / (DROP_BATCH as int) == batches@.len()) by (nonlinear_arith)
                requires
                    n <= batches@.len() * 256,
                    n > (batches@.len() - 1) * 256,
                    batches@.len() >= 1,
                    DROP_BATCH == 256;
            return batches;
        }
    }
    assert((n + DROP_BATCH - 1) / (DROP_BATCH as int) == batches@.len()) by (nonlinear_arith)
        requires
            n == batches@.len() * 256,
            DROP_BATCH == 256;
    batches
}

/// What a drop does after one delete batch finishes.
#[derive(Debug)]
pub enum DropStep {
    /// The batch was deleted; the count now includes it.
    Continue(usize),
    /// The drop stops with this failure.
    Fail(CacheError),
}

/// Decides the next step after a delete batch of `batch_len` keys, when
/// `deleted` keys were removed by earlier batches: success adds the batch to
/// the count; a failure with nothing deleted yet is reported as is, and a
/// later failure reports the earlier count with the failure as its source.
pub fn after_batch(deleted: usize, batch_len: usize, outcome: Result<()>) -> (step: DropStep)
    requires
        deleted + batch_len <= usize::MAX,
    ensures
        outcome is Ok ==> step == DropStep::Continue((deleted + batch_len) as usize),
        outcome matches Err(e) ==> (deleted == 0 ==> step == DropStep::Fail(e)),
        outcome matches Err(e) ==> (deleted > 0 ==> step == DropStep::Fail(
            CacheError::PartialDelete { deleted, source: Box::new(e) },
        )),
{
    match outcome {
        Ok(()) => DropStep::Continue(deleted + batch_len),
        Err(source) => {
            if deleted == 0 {
                DropStep::Fail(source)
            } else {
                DropStep::Fail(CacheError::PartialDelete { deleted, source: Box::new(source) })
            }
        },
    }
}

/// Each scanned key is counted once: the kept keys hold no repeats, and a
/// key is kept exactly when it was scanned.
pub proof fn law_each_key_counted_once(s: Seq<Seq<char>>)
    ensures
        first_occurrences(s).no_duplicates(),
        forall|k: Seq<char>| first_occurrences(s).contains(k) <==> s.contains(k),
    decreases s.len(),
{
    assert forall|k: Seq<char>| first_occurrences(s).contains(k) <==> s.contains(k) by {
        lemma_first_occurrences_contains(s, k);
    }
    if s.len() > 0 {
        law_each_key_counted_once(s.drop_last());
        if !s.drop_last().contains(s.last()) {
            lemma_first_occurrences_contains(s.drop_last(), s.last());
            let prev = first_occurrences(s.drop_last());
            assert(first_occurrences(s) =~= prev.push(s.last()));
            assert forall|a: int, b: int| 0 <= a < b < prev.len() + 1 implies
                first_occurrences(s)[a] != first_occurrences(s)[b] by {
                if b == prev.len() {
                    assert(prev.contains(prev[a]));
                }
            }
        } else {
            assert(first_occurrences(s) =~= first_occurrences(s.drop_last()));
        }
    }
}

/// Batching keeps every key, once and in order: key `i` is entry
/// `i % DROP_BATCH` of batch `i / DROP_BATCH`, and every batch holds between
/// one and `DROP_BATCH` keys.
pub proof fn law_batches_cover_keys(ks: Seq<Seq<char>>, i: int, b: int)
    requires
        0 <= i < ks.len(),
        0 <= b < (ks.len() + DROP_BATCH - 1) / (DROP_BATCH as int),
    ensures
        i / (DROP_BATCH as int) < (ks.len() + DROP_BATCH - 1) / (DROP_BATCH as int),
        batch_range(ks, i / (DROP_BATCH as int))[i % (DROP_BATCH as int)] == ks[i],
        1 <= batch_range(ks, b).len() <= DROP_BATCH,
{
    let q = i / 256;
    let r = i % 256;
    assert(i == q * 256 + r && 0 <= r < 256);
    assert(q < (ks.len() + 255) / 256) by (nonlinear_arith)
        requires i == q * 256 + r, 0 <= r < 256, i < ks.len(), q >= 0;
    assert(b * 256 < ks.len()) by (nonlinear_arith)
        requires b < (ks.len() + 255) / 256, b >= 0, ks.len() >= 0;
    assert(ks.subrange(q * 256, if (q + 1) * 256 < ks.len() { (q + 1) * 256 } else { ks.len() as int })[r]
        == ks[q * 256 + r]);
}

/// A drop reaches every key a strategy writes: each key is its database
/// head followed by a segment, so it lies under that head.
pub proof fn law_strategy_keys_are_under_head(head: Seq<char>, rest: Seq<char>)
    ensures
        under(head, head + rest),
{
    assert((head + rest).subrange(0, head.len() as int) =~= head);
}

} // verus!
