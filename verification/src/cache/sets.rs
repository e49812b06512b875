//! Process-local model of server-side sets, behind the in-memory Sets backend.
//!
//! A set store is a relation between set keys and members: a key names the
//! set of members paired with it, and a key with no members is an empty set.

use vstd::prelude::*;
use crate::text::str_eq;

verus! {

/// The (set key, member) pairs a list of stored pairs holds.
pub open spec fn pair_set(pairs: Seq<(String, String)>) -> Set<(Seq<char>, Seq<char>)> {
    Set::new(|p: (Seq<char>, Seq<char>)| exists|i: int| 0 <= i < pairs.len() && pairs[i].0@ == p.0 && pairs[i].1@ == p.1)
}

/// No pair occurs twice.
pub open spec fn unique_pairs(pairs: Seq<(String, String)>) -> bool {
    forall|i: int, j: int| 0 <= i < pairs.len() && 0 <= j < pairs.len() && i != j
        ==> (pairs[i].0@, pairs[i].1@) != (pairs[j].0@, pairs[j].1@)
}

/// The members of the set named `key`.
pub open spec fn members_of(rel: Set<(Seq<char>, Seq<char>)>, key: Seq<char>) -> Set<Seq<char>> {
    Set::new(|m: Seq<char>| rel.contains((key, m)))
}

/// The pairs naming each of the given members under `key`.
pub open spec fn pairs_for(key: Seq<char>, members: Seq<&str>) -> Set<(Seq<char>, Seq<char>)> {
    pairs_upto(key, members, members.len() as int)
}

/// The pairs naming the first `n` of the given members under `key`.
pub open spec fn pairs_upto(key: Seq<char>, members: Seq<&str>, n: int) -> Set<(Seq<char>, Seq<char>)> {
    Set::new(|p: (Seq<char>, Seq<char>)| p.0 == key && exists|j: int| 0 <= j < n && members[j]@ == p.1)
}

/// The texts of a list of strings, in order.
pub open spec fn texts(v: Seq<String>) -> Seq<Seq<char>> {
    v.map_values(|s: String| s@)
}

/// Process-local server-side sets.
#[derive(Debug)]
pub struct SetStore {
    pairs: Vec<(String, String)>,
}

impl View for SetStore {
    type V = Set<(Seq<char>, Seq<char>)>;

    closed spec fn view(&self) -> Self::V {
        pair_set(self.pairs@)
    }
}

impl SetStore {
    #[verifier::type_invariant]
    closed spec fn inv(self) -> bool {
        unique_pairs(self.pairs@)
    }

    /// An empty set store.
    pub fn new() -> (s: SetStore)
        ensures
            s@ == Set::<(Seq<char>, Seq<char>)>::empty(),
    {
        let s = SetStore { pairs: Vec::new() };
        assert(s@ =~= Set::<(Seq<char>, Seq<char>)>::empty());
        s
    }

    fn position(&self, key: &str, member: &str) -> (r: Option<usize>)
        ensures
            r matches Some(i) ==> i < self.pairs@.len() && self.pairs@[i as int].0@ == key@
                && self.pairs@[i as int].1@ == member@,
            r is None ==> !self@.contains((key@, member@)),
    {
        let mut i: usize = 0;
        while i < self.pairs.len()
            invariant
                i <= self.pairs@.len(),
                forall|j: int| 0 <= j < i ==> !(self.pairs@[j].0@ == key@ && self.pairs@[j].1@ == member@),
            decreases self.pairs@.len() - i,
        {
            if str_eq(self.pairs[i].0.as_str(), key) && str_eq(self.pairs[i].1.as_str(), member) {
                return Some(i);
            }
            i += 1;
        }
        None
    }

    fn add_one(&mut self, key: &str, member: &str)
        ensures
            final(self)@ == old(self)@.insert((key@, member@)),
    {
        proof { use_type_invariant(&*self); }
        let ghost old_pairs = self.pairs@;
        if self.position(key, member).is_some() {
            assert(old_pairs.len() >= 0);
            assert(self@.contains((key@, member@)));
            assert(self@.insert((key@, member@)) =~= self@);
            return;
        }
        let mut pairs = Vec::new();
        std::mem::swap(&mut pairs, &mut self.pairs);
        pairs.push((crate::text::owned(key), crate::text::owned(member)));
        proof {
            let n = old_pairs.len() as int;
            assert(unique_pairs(pairs@)) by {
                assert forall|a: int| 0 <= a < n implies (pairs@[a].0@, pairs@[a].1@) != (key@, member@) by {
                    assert(pairs@[a] == old_pairs[a]);
                }
            }
            assert forall|p: (Seq<char>, Seq<char>)| pair_set(pairs@).contains(p)
                <==> pair_set(old_pairs).insert((key@, member@)).contains(p) by {
                if pair_set(pairs@).contains(p) {
                    let j = choose|j: int| 0 <= j < pairs@.len() && pairs@[j].0@ == p.0 && pairs@[j].1@ == p.1;
                    if j < n {
                        assert(pairs@[j] == old_pairs[j]);
                    }
                }
                if pair_set(old_pairs).contains(p) {
                    let j = choose|j: int| 0 <= j < old_pairs.len() && old_pairs[j].0@ == p.0 && old_pairs[j].1@ == p.1;
                    assert(pairs@[j] == old_pairs[j]);
                }
                if p == (key@, member@) {
                    assert(pairs@[n].0@ == p.0 && pairs@[n].1@ == p.1);
                }
            }
            assert(pair_set(pairs@) =~= pair_set(old_pairs).insert((key@, member@)));
        }
        self.pairs = pairs;
    }

    /// Adds all members to the set named `key`, idempotently.
    pub fn set_add(&mut self, key: &str, members: &[&str])
        ensures
            final(self)@ == old(self)@.union(pairs_for(key@, members@)),
    {
        let mut i: usize = 0;
        while i < members.len()
            invariant
                i <= members@.len(),
                self@ == old(self)@.union(pairs_upto(key@, members@, i as int)),
            decreases members@.len() - i,
        {
            self.add_one(key, members[i]);
            assert(pairs_upto(key@, members@, i + 1) =~= pairs_upto(key@, members@, i as int).insert(
                (key@, members@[i as int]@),
            ));
            assert(self@ =~= old(self)@.union(pairs_upto(key@, members@, i + 1)));
            i += 1;
        }
    }

    fn remove_one(&mut self, key: &str, member: &str)
        ensures
            final(self)@ == old(self)@.remove((key@, member@)),
    {
        proof { use_type_invariant(&*self); }
        let ghost old_pairs = self.pairs@;
        match self.position(key, member) {
            None => {
                assert(self@.remove((key@, member@)) =~= self@);
            },
            Some(i) => {
                let mut pairs = Vec::new();
                std::mem::swap(&mut pairs, &mut self.pairs);
                pairs.remove(i);
                proof {
                    assert(pairs@ =~= old_pairs.remove(i as int));
                    assert(unique_pairs(pairs@)) by {
                        assert forall|a: int, b: int| 0 <= a < pairs@.len() && 0 <= b < pairs@.len() && a != b
                            implies (pairs@[a].0@, pairs@[a].1@) != (pairs@[b].0@, pairs@[b].1@) by {
                            let oa = if a < i { a } else { a + 1 };
                            let ob = if b < i { b } else { b + 1 };
                            assert(pairs@[a] == old_pairs[oa]);
                            assert(pairs@[b] == old_pairs[ob]);
                        }
                    }
                    assert forall|p: (Seq<char>, Seq<char>)| pair_set(pairs@).contains(p)
                        <==> pair_set(old_pairs).remove((key@, member@)).contains(p) by {
                        if pair_set(pairs@).contains(p) {
                            let j = choose|j: int| 0 <= j < pairs@.len() && pairs@[j].0@ == p.0 && pairs@[j].1@ == p.1;
                            let oj = if j < i { j } else { j + 1 };
                            assert(pairs@[j] == old_pairs[oj]);
                        }
                        if pair_set(old_pairs).remove((key@, member@)).contains(p) {
                            let j = choose|j: int| 0 <= j < old_pairs.len() && old_pairs[j].0@ == p.0 && old_pairs[j].1@ == p.1;
                            assert(j != i);
                            let nj = if j < i { j } else { j - 1 };
                            assert(pairs@[nj] == old_pairs[j]);
                        }
                    }
                    assert(pair_set(pairs@) =~= pair_set(old_pairs).remove((key@, member@)));
                }
                self.pairs = pairs;
            },
        }
    }

    /// Removes all supplied members from the set named `key`; absent members
    /// and sets are harmless.
    pub fn set_remove(&mut self, key: &str, members: &[&str])
        ensures
            final(self)@ == old(self)@.difference(pairs_for(key@, members@)),
    {
        let mut i: usize = 0;
        while i < members.len()
            invariant
                i <= members@.len(),
                self@ == old(self)@.difference(pairs_upto(key@, members@, i as int)),
            decreases members@.len() - i,
        {
            self.remove_one(key, members[i]);
            assert(pairs_upto(key@, members@, i + 1) =~= pairs_upto(key@, members@, i as int).insert(
                (key@, members@[i as int]@),
            ));
            assert(self@ =~= old(self)@.difference(pairs_upto(key@, members@, i + 1)));
            i += 1;
        }
    }

    /// Returns all members of the set named `key`, each once, in unspecified
    /// order; a missing set is empty.
    pub fn set_members(&self, key: &str) -> (r: Vec<String>)
        ensures
            texts(r@).to_set() == members_of(self@, key@),
            texts(r@).no_duplicates(),
    {
        proof { use_type_invariant(self); }
        let mut out: Vec<String> = Vec::new();
        let mut i: usize = 0;
        while i < self.pairs.len()
            invariant
                i <= self.pairs@.len(),
                unique_pairs(self.pairs@),
                forall|m: Seq<char>| texts(out@).contains(m) <==> exists|j: int| 0 <= j < i
                    && self.pairs@[j].0@ == key@ && self.pairs@[j].1@ == m,
                forall|a: int, b: int| 0 <= a < out@.len() && 0 <= b < out@.len() && a != b
                    ==> out@[a]@ != out@[b]@,
            decreases self.pairs@.len() - i,
        {
            let ghost before_all = out@;
            if str_eq(self.pairs[i].0.as_str(), key) {
                let ghost m = self.pairs@[i as int].1@;
                proof {
                    assert forall|j: int| 0 <= j < i && self.pairs@[j].0@ == key@ implies self.pairs@[j].1@ != m by {
                        assert(j != i);
                    }
                    assert(!texts(out@).contains(m));
                }
                let ghost before = out@;
                out.push(self.pairs[i].1.clone());
                proof {
                    assert(texts(out@) =~= texts(before).push(m));
                    assert forall|a: int| 0 <= a < before.len() implies out@[a]@ != m by {
                        assert(texts(before)[a] == before[a]@);
                    }
                }
            }
            proof {
                let n = i as int;
                assert forall|q: Seq<char>| texts(out@).contains(q) <==> exists|j: int| 0 <= j < n + 1
                    && self.pairs@[j].0@ == key@ && self.pairs@[j].1@ == q by {
                    if texts(out@).contains(q) {
                        if !texts(before_all).contains(q) {
                            assert(self.pairs@[n].0@ == key@ && self.pairs@[n].1@ == q);
                        } else {
                            let j = choose|j: int| 0 <= j < n && self.pairs@[j].0@ == key@ && self.pairs@[j].1@ == q;
                            assert(0 <= j < n + 1);
                        }
                    }
                    if exists|j: int| 0 <= j < n + 1 && self.pairs@[j].0@ == key@ && self.pairs@[j].1@ == q {
                        let j = choose|j: int| 0 <= j < n + 1 && self.pairs@[j].0@ == key@ && self.pairs@[j].1@ == q;
                        if j < n {
                            assert(texts(before_all).contains(q));
                            let a = choose|a: int| 0 <= a < texts(before_all).len() && texts(before_all)[a] == q;
                            assert(texts(out@)[a] == q);
                        } else {
                            assert(texts(out@)[out@.len() - 1] == q);
                        }
                    }
                }
            }
            i += 1;
        }
        proof {
            assert forall|m: Seq<char>| texts(out@).to_set().contains(m) <==> members_of(self@, key@).contains(m) by {
                if members_of(self@, key@).contains(m) {
                    assert(pair_set(self.pairs@).contains((key@, m)));
                }
            }
            assert(texts(out@).to_set() =~= members_of(self@, key@));
            assert forall|a: int, b: int| 0 <= a < texts(out@).len() && 0 <= b < texts(out@).len() && a != b
                implies texts(out@)[a] != texts(out@)[b] by {}
        }
        out
    }
}

/// Added members are present: after `set_add`, the set holds every listed
/// member besides what it held before.
pub proof fn law_added_members_present(rel: Set<(Seq<char>, Seq<char>)>, key: Seq<char>, members: Seq<&str>)
    ensures
        members_of(rel.union(pairs_for(key, members)), key)
            == members_of(rel, key).union(Set::new(|m: Seq<char>| exists|j: int| 0 <= j < members.len() && members[j]@ == m)),
{
    assert(members_of(rel.union(pairs_for(key, members)), key)
        =~= members_of(rel, key).union(Set::new(|m: Seq<char>| exists|j: int| 0 <= j < members.len() && members[j]@ == m)));
}

/// Removed members are gone: after `set_remove`, the set holds what it held
/// before except the listed members.
pub proof fn law_removed_members_absent(rel: Set<(Seq<char>, Seq<char>)>, key: Seq<char>, members: Seq<&str>)
    ensures
        members_of(rel.difference(pairs_for(key, members)), key)
            == members_of(rel, key).difference(Set::new(|m: Seq<char>| exists|j: int| 0 <= j < members.len() && members[j]@ == m)),
{
    assert(members_of(rel.difference(pairs_for(key, members)), key)
        =~= members_of(rel, key).difference(Set::new(|m: Seq<char>| exists|j: int| 0 <= j < members.len() && members[j]@ == m)));
}

/// Sets are independent: adding to or removing from one set leaves every
/// other set as it was.
pub proof fn law_other_sets_unaffected(
    rel: Set<(Seq<char>, Seq<char>)>,
    key: Seq<char>,
    other: Seq<char>,
    members: Seq<&str>,
)
    requires
        key != other,
    ensures
        members_of(rel.union(pairs_for(key, members)), other) == members_of(rel, other),
        members_of(rel.difference(pairs_for(key, members)), other) == members_of(rel, other),
{
    assert(members_of(rel.union(pairs_for(key, members)), other) =~= members_of(rel, other));
    assert(members_of(rel.difference(pairs_for(key, members)), other) =~= members_of(rel, other));
}

/// Removing undoes adding: adding members that a set did not hold and then
/// removing them leaves every set as it was.
pub proof fn law_remove_undoes_add(rel: Set<(Seq<char>, Seq<char>)>, key: Seq<char>, members: Seq<&str>)
    requires
        forall|j: int| 0 <= j < members.len() ==> !rel.contains((key, #[trigger] members[j]@)),
    ensures
        rel.union(pairs_for(key, members)).difference(pairs_for(key, members)) == rel,
{
    assert forall|p: (Seq<char>, Seq<char>)| rel.contains(p) implies !pairs_for(key, members).contains(p) by {
        if pairs_for(key, members).contains(p) {
            let j = choose|j: int| 0 <= j < members.len() && members[j]@ == p.1;
            assert(rel.contains((key, members[j]@)));
        }
    }
    assert(rel.union(pairs_for(key, members)).difference(pairs_for(key, members)) =~= rel);
}

} // verus!
