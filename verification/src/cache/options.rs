//! Per-operation cache policy overrides and their fluent builders.

use vstd::prelude::*;
use crate::text::str_eq;
use crate::time::Duration;

verus! {

/// Secondary field/value memberships requested by Indexed operations.
///
/// Each field appears at most once; inserting a field that is already present
/// replaces its value in place, and new fields keep their insertion order.
#[derive(Debug)]
pub struct Indexes {
    entries: Vec<(String, String)>,
}

/// The field and value texts of a list of memberships.
pub open spec fn entry_views(entries: Seq<(String, String)>) -> Seq<(Seq<char>, Seq<char>)> {
    entries.map_values(|e: (String, String)| (e.0@, e.1@))
}

/// No field occurs twice in a list of memberships.
pub open spec fn unique_fields(s: Seq<(Seq<char>, Seq<char>)>) -> bool {
    forall|i: int, j: int| 0 <= i < s.len() && 0 <= j < s.len() && i != j ==> s[i].0 != s[j].0
}

/// The membership list after setting `field` to `value`: replaced in place when
/// the field is present, appended otherwise.
pub open spec fn set_field(
    s: Seq<(Seq<char>, Seq<char>)>,
    field: Seq<char>,
    value: Seq<char>,
) -> Seq<(Seq<char>, Seq<char>)> {
    if exists|i: int| 0 <= i < s.len() && s[i].0 == field {
        let i = choose|i: int| 0 <= i < s.len() && s[i].0 == field;
        s.update(i, (field, value))
    } else {
        s.push((field, value))
    }
}

impl View for Indexes {
    type V = Seq<(Seq<char>, Seq<char>)>;

    closed spec fn view(&self) -> Self::V {
        entry_views(self.entries@)
    }
}

impl Indexes {
    #[verifier::type_invariant]
    closed spec fn inv(self) -> bool {
        unique_fields(entry_views(self.entries@))
    }

    /// An empty membership list.
    pub fn new() -> (m: Indexes)
        ensures
            m@ == Seq::<(Seq<char>, Seq<char>)>::empty(),
    {
        let m = Indexes { entries: Vec::new() };
        assert(m@ =~= Seq::<(Seq<char>, Seq<char>)>::empty());
        m
    }

    /// Number of memberships.
    pub fn len(&self) -> (n: usize)
        ensures
            n == self@.len(),
            unique_fields(self@),
    {
        proof { use_type_invariant(self); }
        self.entries.len()
    }

    /// Whether there are no memberships.
    pub fn is_empty(&self) -> (b: bool)
        ensures
            b == (self@.len() == 0),
    {
        self.entries.len() == 0
    }

    /// The field and value at position `i`.
    pub fn entry(&self, i: usize) -> (e: (&str, &str))
        requires
            i < self@.len(),
        ensures
            e.0@ == self@[i as int].0,
            e.1@ == self@[i as int].1,
    {
        let e = &self.entries[i];
        (e.0.as_str(), e.1.as_str())
    }

    /// Sets `field` to `value`, replacing an earlier value for the same field.
    pub fn insert(&mut self, field: String, value: String)
        ensures
            final(self)@ == set_field(old(self)@, field@, value@),
    {
        proof { use_type_invariant(&*self); }
        let ghost old_view = self@;
        let ghost target = set_field(old_view, field@, value@);
        let n = self.entries.len();
        let mut i: usize = 0;
        let mut found: Option<usize> = None;
        while i < n
            invariant_except_break
                found is None,
            invariant
                n == self.entries@.len(),
                i <= n,
                old_view == entry_views(self.entries@),
                forall|j: int| 0 <= j < i ==> self.entries@[j].0@ != field@,
            ensures
                found is None ==> forall|j: int| 0 <= j < n ==> self.entries@[j].0@ != field@,
                found matches Some(k) ==> k < n && self.entries@[k as int].0@ == field@,
            decreases n - i,
        {
            if str_eq(self.entries[i].0.as_str(), field.as_str()) {
                found = Some(i);
                break;
            }
            i += 1;
        }
        let ghost fv = (field@, value@);
        let mut entries = Vec::new();
        std::mem::swap(&mut entries, &mut self.entries);
        match found {
            Some(k) => {
                proof {
                    assert(old_view[k as int].0 == field@);
                    let c = choose|x: int| 0 <= x < old_view.len() && old_view[x].0 == field@;
                    assert(c == k as int);
                    assert(target == old_view.update(k as int, fv));
                }
                entries.set(k, (field, value));
                assert(entry_views(entries@) =~= old_view.update(k as int, fv));
            },
            None => {
                assert(!exists|x: int| 0 <= x < old_view.len() && old_view[x].0 == field@);
                entries.push((field, value));
                assert(entry_views(entries@) =~= old_view.push(fv));
            },
        }
        assert(entry_views(entries@) == target);
        assert(unique_fields(entry_views(entries@)));
        self.entries = entries;
    }
}

impl Clone for Indexes {
    fn clone(&self) -> (m: Self)
        ensures
            m@ == self@,
    {
        proof { use_type_invariant(self); }
        let mut entries: Vec<(String, String)> = Vec::new();
        let mut i: usize = 0;
        while i < self.entries.len()
            invariant
                i <= self.entries@.len(),
                entry_views(entries@) =~= entry_views(self.entries@).take(i as int),
            decreases self.entries@.len() - i,
        {
            let e = &self.entries[i];
            let f = e.0.clone();
            let v = e.1.clone();
            entries.push((f, v));
            assert(entry_views(entries@) =~= entry_views(self.entries@).take(i as int).push(
                (self.entries@[i as int].0@, self.entries@[i as int].1@),
            ));
            assert(entry_views(entries@) =~= entry_views(self.entries@).take(i + 1));
            i += 1;
        }
        assert(entry_views(self.entries@).take(i as int) =~= entry_views(self.entries@));
        Indexes { entries }
    }
}

/// Typed operation settings shared by all cache strategies.
///
/// Strategies combine these values with database defaults. Lease priority is:
/// explicit `ttl`, explicit `permanent`, configured default, required-TTL
/// rejection, then permanent storage.
#[derive(Debug)]
pub struct Options {
    /// Explicit ID for Document or Indexed create; absence invokes the generator.
    pub id: Option<String>,
    /// Explicit freshness lease; takes precedence over permanence and defaults.
    pub ttl: Option<Duration>,
    /// Additional Aside stale-serving window after the fresh deadline.
    pub stale: Option<Duration>,
    /// Secondary field/value memberships requested by Indexed operations.
    pub indexes: Option<Indexes>,
    /// Explicit intent to store permanently when no explicit TTL is present.
    pub permanent: bool,
}

/// The memberships an options value requests, empty when none are given.
pub open spec fn requested(o: Option<Indexes>) -> Seq<(Seq<char>, Seq<char>)> {
    match o {
        Some(m) => m@,
        None => Seq::empty(),
    }
}

impl Default for Options {
    fn default() -> (o: Self)
        ensures
            o.id is None,
            o.ttl is None,
            o.stale is None,
            o.indexes is None,
            !o.permanent,
    {
        Options { id: None, ttl: None, stale: None, indexes: None, permanent: false }
    }
}

impl Clone for Options {
    fn clone(&self) -> (o: Self)
        ensures
            o.id == self.id,
            o.ttl == self.ttl,
            o.stale == self.stale,
            o.indexes is Some == self.indexes is Some,
            requested(o.indexes) == requested(self.indexes),
            o.permanent == self.permanent,
    {
        let id = match &self.id {
            Some(s) => Some(s.clone()),
            None => None,
        };
        let indexes = match &self.indexes {
            Some(m) => Some(m.clone()),
            None => None,
        };
        Options { id, ttl: self.ttl, stale: self.stale, indexes, permanent: self.permanent }
    }
}

impl Options {
    /// Selects the ID used by Document or Indexed create.
    pub fn with_id(self, id: String) -> (o: Options)
        ensures
            o.id == Some(id),
            o.ttl == self.ttl,
            o.stale == self.stale,
            o.indexes == self.indexes,
            o.permanent == self.permanent,
    {
        Options { id: Some(id), ..self }
    }

    /// Sets an explicit freshness lease, which takes precedence over
    /// `permanent` and database defaults.
    pub fn with_ttl(self, duration: Duration) -> (o: Options)
        ensures
            o.ttl == Some(duration),
            o.id == self.id,
            o.stale == self.stale,
            o.indexes == self.indexes,
            o.permanent == self.permanent,
    {
        Options { ttl: Some(duration), ..self }
    }

    /// Allows Aside to serve an expired value for this additional duration.
    pub fn with_stale(self, duration: Duration) -> (o: Options)
        ensures
            o.stale == Some(duration),
            o.id == self.id,
            o.ttl == self.ttl,
            o.indexes == self.indexes,
            o.permanent == self.permanent,
    {
        Options { stale: Some(duration), ..self }
    }

    /// Adds or replaces one secondary field/value membership for Indexed.
    ///
    /// Repeated calls with the same field retain only the last value.
    pub fn with_index(self, name: String, value: String) -> (o: Options)
        ensures
            o.indexes is Some,
            requested(o.indexes) == set_field(requested(self.indexes), name@, value@),
            o.id == self.id,
            o.ttl == self.ttl,
            o.stale == self.stale,
            o.permanent == self.permanent,
    {
        let Options { id, ttl, stale, indexes, permanent } = self;
        let mut m = match indexes {
            Some(m) => m,
            None => Indexes::new(),
        };
        m.insert(name, value);
        Options { id, ttl, stale, indexes: Some(m), permanent }
    }

    /// Explicitly requests a permanent entry when no TTL is supplied.
    pub fn permanent(self) -> (o: Options)
        ensures
            o.permanent,
            o.id == self.id,
            o.ttl == self.ttl,
            o.stale == self.stale,
            o.indexes == self.indexes,
    {
        Options { permanent: true, ..self }
    }

    /// Alias for [`Options::permanent`].
    pub fn no_expiry(self) -> (o: Options)
        ensures
            o.permanent,
            o.id == self.id,
            o.ttl == self.ttl,
            o.stale == self.stale,
            o.indexes == self.indexes,
    {
        Options { permanent: true, ..self }
    }
}

} // verus!
