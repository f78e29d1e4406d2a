//! A small map from text keys to values that remembers the order in which
//! its keys first arrived.

use vstd::prelude::*;
use crate::sequences::{lemma_filter_keeps_all, lemma_filter_out_unique};

verus! {

/// A map keyed by strings. No key occurs twice; a key that is inserted
/// again keeps its place and gets the new value.
#[derive(Debug)]
pub struct StringMap<V> {
    entries: Vec<(String, V)>,
}

impl<V> View for StringMap<V> {
    type V = Map<Seq<char>, V>;

    closed spec fn view(&self) -> Map<Seq<char>, V> {
        Self::map_of(self.entries@)
    }
}

impl<V> StringMap<V> {
    #[verifier::type_invariant]
    spec fn distinct_keys(self) -> bool {
        Self::distinct(self.entries@)
    }

    spec fn distinct(s: Seq<(String, V)>) -> bool {
        forall|i: int, j: int| 0 <= i < j < s.len() ==> (#[trigger] s[i]).0@ != (#[trigger] s[j]).0@
    }

    spec fn map_of(s: Seq<(String, V)>) -> Map<Seq<char>, V>
        decreases s.len(),
    {
        if s.len() == 0 {
            Map::empty()
        } else {
            Self::map_of(s.drop_last()).insert(s.last().0@, s.last().1)
        }
    }

    /// The keys in the order in which they first arrived.
    pub closed spec fn keys(&self) -> Seq<Seq<char>> {
        self.entries@.map_values(|e: (String, V)| e.0@)
    }

    /// The values, each at the place of its key in [`Self::keys`].
    pub closed spec fn values(&self) -> Seq<V> {
        self.entries@.map_values(|e: (String, V)| e.1)
    }

    proof fn lemma_map_of(s: Seq<(String, V)>)
        requires
            Self::distinct(s),
        ensures
            forall|k: Seq<char>| #[trigger]
                Self::map_of(s).contains_key(k) <==> exists|i: int|
                    0 <= i < s.len() && (#[trigger] s[i]).0@ == k,
            forall|i: int|
                0 <= i < s.len() ==> Self::map_of(s).contains_key((#[trigger] s[i]).0@)
                    && Self::map_of(s)[s[i].0@] == s[i].1,
            Self::map_of(s).dom().finite(),
            Self::map_of(s).len() == s.len(),
        decreases s.len(),
    {
        if s.len() > 0 {
            let t = s.drop_last();
            Self::lemma_map_of(t);
            let m = Self::map_of(t);
            let last = s.last();
            assert(forall|i: int| 0 <= i < t.len() ==> t[i] == s[i]);
            assert(!m.contains_key(last.0@)) by {
                if m.contains_key(last.0@) {
                    let i = choose|i: int| 0 <= i < t.len() && (#[trigger] t[i]).0@ == last.0@;
                    assert(s[i].0@ != s[s.len() - 1].0@);
                }
            }
            assert forall|k: Seq<char>| #[trigger]
                Self::map_of(s).contains_key(k) implies exists|i: int|
                0 <= i < s.len() && (#[trigger] s[i]).0@ == k by {
                if k == last.0@ {
                    assert(s[s.len() - 1].0@ == k);
                } else {
                    let i = choose|i: int| 0 <= i < t.len() && (#[trigger] t[i]).0@ == k;
                    assert(s[i].0@ == k);
                }
            }
            assert forall|i: int| 0 <= i < s.len() implies Self::map_of(s).contains_key(
                (#[trigger] s[i]).0@,
            ) && Self::map_of(s)[s[i].0@] == s[i].1 by {
                if i < t.len() {
                    assert(t[i] == s[i]);
                    assert(s[i].0@ != s[s.len() - 1].0@);
                }
            }
        }
    }

    /// The keys are distinct, they are the domain of the view, and each
    /// value stands at its key. Every method of the map states this of the
    /// map that it leaves.
    pub open spec fn consistent(&self) -> bool {
        &&& self.keys().len() == self.values().len()
        &&& self.keys().no_duplicates()
        &&& self@.dom().finite()
        &&& self@.len() == self.keys().len()
        &&& forall|k: Seq<char>| #[trigger] self@.contains_key(k) <==> self.keys().contains(k)
        &&& forall|i: int|
            0 <= i < self.keys().len() ==> self@.contains_key(#[trigger] self.keys()[i])
                && self@[self.keys()[i]] == self.values()[i]
    }

    proof fn lemma_consistent(&self)
        requires
            self.distinct_keys(),
        ensures
            self.consistent(),
    {
        Self::lemma_map_of(self.entries@);
        let s = self.entries@;
        assert forall|k: Seq<char>| #[trigger] self@.contains_key(k) implies self.keys().contains(
            k,
        ) by {
            let i = choose|i: int| 0 <= i < s.len() && (#[trigger] s[i]).0@ == k;
            assert(self.keys()[i] == k);
        }
        assert forall|k: Seq<char>| self.keys().contains(k) implies #[trigger] self@.contains_key(
            k,
        ) by {
            let i = choose|i: int| 0 <= i < self.keys().len() && self.keys()[i] == k;
            assert(s[i].0@ == k);
        }
        assert forall|i: int| 0 <= i < self.keys().len() implies self@.contains_key(
            #[trigger] self.keys()[i],
        ) && self@[self.keys()[i]] == self.values()[i] by {
            assert(s[i].0@ == self.keys()[i]);
        }
    }

    /// An empty map.
    pub fn new() -> (m: Self)
        ensures
            m@ == Map::<Seq<char>, V>::empty(),
            m.keys() == Seq::<Seq<char>>::empty(),
            m.consistent(),
    {
        let m = StringMap { entries: Vec::new() };
        proof {
            m.lemma_consistent();
            assert(m.keys() =~= Seq::<Seq<char>>::empty());
        }
        m
    }

    /// The number of keys.
    pub fn len(&self) -> (n: usize)
        ensures
            n == self@.len(),
            n == self.keys().len(),
            self.consistent(),
    {
        proof {
            use_type_invariant(self);
            self.lemma_consistent();
        }
        self.entries.len()
    }

    /// The place of `key` among the keys, if the map holds it.
    pub fn position(&self, key: &String) -> (r: Option<usize>)
        ensures
            self.consistent(),
            match r {
                Some(i) => i < self.keys().len() && self.keys()[i as int] == key@,
                None => !self@.contains_key(key@),
            },
    {
        proof {
            use_type_invariant(self);
            self.lemma_consistent();
        }
        let mut i: usize = 0;
        while i < self.entries.len()
            invariant
                i <= self.entries.len(),
                self.consistent(),
                forall|j: int| 0 <= j < i ==> self.keys()[j] != key@,
                self.keys().len() == self.entries.len(),
                forall|j: int| 0 <= j < self.entries.len() ==> self.keys()[j] == (#[trigger] self.entries[j]).0@,
            decreases self.entries.len() - i,
        {
            if self.entries[i].0 == *key {
                return Some(i);
            }
            i += 1;
        }
        assert(!self.keys().contains(key@));
        None
    }

    /// Whether the map holds `key`.
    pub fn contains_key(&self, key: &String) -> (b: bool)
        ensures
            b == self@.contains_key(key@),
            self.consistent(),
    {
        self.position(key).is_some()
    }

    /// The value at `key`, if the map holds it.
    pub fn get(&self, key: &String) -> (r: Option<&V>)
        ensures
            self.consistent(),
            match r {
                Some(v) => self@.contains_key(key@) && *v == self@[key@],
                None => !self@.contains_key(key@),
            },
    {
        match self.position(key) {
            Some(i) => {
                assert(self.values()[i as int] == self.entries[i as int].1);
                Some(&self.entries[i].1)
            },
            None => None,
        }
    }

    /// The key at place `i`.
    pub fn key_at(&self, i: usize) -> (k: &String)
        requires
            i < self.keys().len(),
        ensures
            k@ == self.keys()[i as int],
            self.consistent(),
    {
        proof {
            use_type_invariant(self);
            self.lemma_consistent();
        }
        &self.entries[i].0
    }

    /// The value at place `i`.
    pub fn value_at(&self, i: usize) -> (v: &V)
        requires
            i < self.keys().len(),
        ensures
            *v == self.values()[i as int],
            *v == self@[self.keys()[i as int]],
            self.consistent(),
    {
        proof {
            use_type_invariant(self);
            self.lemma_consistent();
        }
        &self.entries[i].1
    }

    /// Puts `value` at `key`. A key that the map already holds keeps its
    /// place; a new key goes to the end.
    pub fn insert(&mut self, key: String, value: V)
        ensures
            final(self)@ == old(self)@.insert(key@, value),
            final(self).keys() == if old(self)@.contains_key(key@) {
                old(self).keys()
            } else {
                old(self).keys().push(key@)
            },
            final(self).consistent(),
    {
        proof {
            use_type_invariant(&*self);
            self.lemma_consistent();
        }
        let found = self.position(&key);
        let ghost before = self.entries@;
        let mut entries: Vec<(String, V)> = Vec::new();
        std::mem::swap(&mut entries, &mut self.entries);
        match found {
            Some(i) => {
                entries.set(i, (key, value));
                proof {
                    let after = entries@;
                    assert(Self::distinct(after)) by {
                        assert forall|a: int, b: int| 0 <= a < b < after.len() implies (
                        #[trigger] after[a]).0@ != (#[trigger] after[b]).0@ by {
                            assert(before[a].0@ != before[b].0@);
                            assert(after[a].0@ == before[a].0@);
                            assert(after[b].0@ == before[b].0@);
                        }
                    }
                    Self::lemma_map_of(before);
                    Self::lemma_map_of(after);
                    let m0 = Self::map_of(before);
                    let m1 = Self::map_of(after);
                    assert(m1 =~= m0.insert(key@, value)) by {
                        assert forall|k: Seq<char>| m1.contains_key(k) <==> m0.insert(
                            key@,
                            value,
                        ).contains_key(k) by {
                            if m1.contains_key(k) {
                                let j = choose|j: int|
                                    0 <= j < after.len() && (#[trigger] after[j]).0@ == k;
                                assert(before[j].0@ == k);
                            }
                            if m0.contains_key(k) {
                                let j = choose|j: int|
                                    0 <= j < before.len() && (#[trigger] before[j]).0@ == k;
                                assert(after[j].0@ == k);
                            }
                            if k == key@ {
                                assert(after[i as int].0@ == k);
                            }
                        }
                        assert forall|k: Seq<char>| m1.contains_key(k) implies m1[k] == m0.insert(
                            key@,
                            value,
                        )[k] by {
                            let j = choose|j: int|
                                0 <= j < after.len() && (#[trigger] after[j]).0@ == k;
                            if j == i {
                            } else {
                                assert(before[j].0@ == k);
                                assert(after[j] == before[j]);
                                assert(before[i as int].0@ == key@);
                            }
                        }
                    }
                    assert(after.map_values(|e: (String, V)| e.0@) =~= before.map_values(
                        |e: (String, V)| e.0@,
                    ));
                }
            },
            None => {
                entries.push((key, value));
                proof {
                    let after = entries@;
                    assert(after.drop_last() =~= before);
                    assert(Self::distinct(after)) by {
                        assert forall|a: int, b: int| 0 <= a < b < after.len() implies (
                        #[trigger] after[a]).0@ != (#[trigger] after[b]).0@ by {
                            if b < before.len() {
                                assert(before[a].0@ != before[b].0@);
                            } else {
                                assert(old(self).keys()[a] == before[a].0@);
                            }
                        }
                    }
                    assert(after.map_values(|e: (String, V)| e.0@) =~= before.map_values(
                        |e: (String, V)| e.0@,
                    ).push(key@));
                }
            },
        }
        self.entries = entries;
        proof {
            self.lemma_consistent();
        }
    }

    /// Takes `key` and its value out of the map; the other keys keep their
    /// order. Returns the value, if the map held the key.
    pub fn remove(&mut self, key: &String) -> (r: Option<V>)
        ensures
            final(self)@ == old(self)@.remove(key@),
            final(self).keys() == old(self).keys().filter(|k: Seq<char>| k != key@),
            final(self).consistent(),
            match r {
                Some(v) => old(self)@.contains_key(key@) && v == old(self)@[key@],
                None => !old(self)@.contains_key(key@),
            },
    {
        proof {
            use_type_invariant(&*self);
            self.lemma_consistent();
        }
        let found = self.position(key);
        let ghost before = self.entries@;
        let ghost keep = |k: Seq<char>| k != key@;
        match found {
            Some(i) => {
                let mut entries: Vec<(String, V)> = Vec::new();
                std::mem::swap(&mut entries, &mut self.entries);
                let taken = entries.remove(i);
                proof {
                    let after = entries@;
                    assert(Self::distinct(after)) by {
                        assert forall|a: int, b: int| 0 <= a < b < after.len() implies (
                        #[trigger] after[a]).0@ != (#[trigger] after[b]).0@ by {
                            let a0 = if a < i { a } else { a + 1 };
                            let b0 = if b < i { b } else { b + 1 };
                            assert(after[a] == before[a0]);
                            assert(after[b] == before[b0]);
                            assert(before[a0].0@ != before[b0].0@);
                        }
                    }
                    Self::lemma_map_of(before);
                    Self::lemma_map_of(after);
                    let m0 = Self::map_of(before);
                    let m1 = Self::map_of(after);
                    assert(before[i as int].0@ == key@);
                    assert(m1 =~= m0.remove(key@)) by {
                        assert forall|k: Seq<char>| m1.contains_key(k) <==> m0.remove(
                            key@,
                        ).contains_key(k) by {
                            if m1.contains_key(k) {
                                let j = choose|j: int|
                                    0 <= j < after.len() && (#[trigger] after[j]).0@ == k;
                                let j0 = if j < i { j } else { j + 1 };
                                assert(after[j] == before[j0]);
                                assert(before[j0].0@ == k);
                                assert(before[j0].0@ != before[i as int].0@);
                            }
                            if m0.contains_key(k) && k != key@ {
                                let j = choose|j: int|
                                    0 <= j < before.len() && (#[trigger] before[j]).0@ == k;
                                let j1 = if j < i { j } else { j - 1 };
                                assert(after[j1] == before[j]);
                            }
                        }
                        assert forall|k: Seq<char>| m1.contains_key(k) implies m1[k] == m0.remove(
                            key@,
                        )[k] by {
                            let j = choose|j: int|
                                0 <= j < after.len() && (#[trigger] after[j]).0@ == k;
                            let j0 = if j < i { j } else { j + 1 };
                            assert(after[j] == before[j0]);
                            assert(before[j0].0@ == k);
                        }
                    }
                    let ks0 = before.map_values(|e: (String, V)| e.0@);
                    let ks1 = after.map_values(|e: (String, V)| e.0@);
                    assert(ks1 =~= ks0.remove(i as int));
                    lemma_filter_out_unique(ks0, i as int);
                    assert(ks0.filter(|k: Seq<char>| k != ks0[i as int]) =~= ks0.filter(keep)) by {
                        assert((|k: Seq<char>| k != ks0[i as int]) =~= keep);
                    }
                }
                self.entries = entries;
                proof {
                    self.lemma_consistent();
                }
                Some(taken.1)
            },
            None => {
                proof {
                    assert(old(self)@.remove(key@) =~= old(self)@);
                    lemma_filter_keeps_all(old(self).keys(), keep);
                }
                None
            },
        }
    }
    /// The keys of `keys` whose place is flagged in `keep`.
    pub open spec fn flagged_keys(keys: Seq<Seq<char>>, keep: Seq<bool>) -> Set<Seq<char>> {
        Set::new(|k: Seq<char>| exists|i: int| 0 <= i < keys.len() && keys[i] == k && keep[i])
    }

    /// Keeps the keys whose place is flagged in `keep` and drops the
    /// others with their values; the keys that stay keep their order.
    pub fn retain_flagged(&mut self, keep: &Vec<bool>)
        requires
            keep@.len() == old(self).keys().len(),
        ensures
            final(self)@ == old(self)@.restrict(Self::flagged_keys(old(self).keys(), keep@)),
            final(self).keys().len() <= old(self).keys().len(),
            final(self).consistent(),
    {
        proof {
            use_type_invariant(&*self);
            self.lemma_consistent();
        }
        let ghost before = self.entries@;
        let ghost old_keys = self.keys();
        let mut all: Vec<(String, V)> = Vec::new();
        std::mem::swap(&mut all, &mut self.entries);
        let total = all.len();
        assert(before.len() == total);
        let mut kept: Vec<(String, V)> = Vec::new();
        let ghost mut origin: Seq<int> = Seq::empty();
        let mut i: usize = 0;
        for entry in it: all
            invariant
                it.seq() == before,
                i == it.index(),
                before.len() <= usize::MAX,
                keep@.len() == before.len(),
                Self::distinct(before),
                origin.len() == kept@.len(),
                forall|j: int|
                    0 <= j < origin.len() ==> 0 <= #[trigger] origin[j] < i && keep@[origin[j]]
                        && kept@[j] == before[origin[j]],
                forall|a: int, b: int|
                    0 <= a < b < origin.len() ==> #[trigger] origin[a] < #[trigger] origin[b],
                forall|p: int|
                    0 <= p < i && keep@[p] ==> exists|j: int|
                        0 <= j < origin.len() && #[trigger] origin[j] == p,
        {
            if keep[i] {
                kept.push(entry);
                proof {
                    let prior = origin;
                    origin = origin.push(i as int);
                    assert forall|p: int| 0 <= p < i + 1 && keep@[p] implies exists|j: int|
                        0 <= j < origin.len() && #[trigger] origin[j] == p by {
                        if p < i {
                            let j = choose|j: int| 0 <= j < prior.len() && #[trigger] prior[j] == p;
                            assert(origin[j] == p);
                        } else {
                            assert(origin[origin.len() - 1] == p);
                        }
                    }
                }
            }
            i += 1;
        }
        proof {
            let after = kept@;
            assert(Self::distinct(after)) by {
                assert forall|a: int, b: int| 0 <= a < b < after.len() implies (
                #[trigger] after[a]).0@ != (#[trigger] after[b]).0@ by {
                    assert(origin[a] < origin[b]);
                    assert(before[origin[a]].0@ != before[origin[b]].0@);
                }
            }
            Self::lemma_map_of(before);
            Self::lemma_map_of(after);
            let m0 = Self::map_of(before);
            let m1 = Self::map_of(after);
            let flagged = Self::flagged_keys(old_keys, keep@);
            assert(m1 =~= m0.restrict(flagged)) by {
                assert forall|k: Seq<char>| m1.contains_key(k) <==> m0.restrict(
                    flagged,
                ).contains_key(k) by {
                    if m1.contains_key(k) {
                        let j = choose|j: int| 0 <= j < after.len() && (#[trigger] after[j]).0@ == k;
                        let p = origin[j];
                        assert(before[p].0@ == k);
                        assert(old_keys[p] == k);
                        assert(flagged.contains(k));
                    }
                    if m0.restrict(flagged).contains_key(k) {
                        let p = choose|p: int| 0 <= p < old_keys.len() && old_keys[p] == k && keep@[p];
                        let j = choose|j: int| 0 <= j < origin.len() && #[trigger] origin[j] == p;
                        assert(after[j].0@ == k);
                    }
                }
                assert forall|k: Seq<char>| m1.contains_key(k) implies m1[k] == m0.restrict(
                    flagged,
                )[k] by {
                    let j = choose|j: int| 0 <= j < after.len() && (#[trigger] after[j]).0@ == k;
                    assert(before[origin[j]].0@ == k);
                }
            }
            assert(after.len() <= before.len()) by {
                lemma_increasing_is_short(origin, before.len() as int);
            }
        }
        self.entries = kept;
        proof {
            self.lemma_consistent();
        }
    }
}

/// A strictly increasing sequence of numbers from 0 up to, not including,
/// `bound` has at most `bound` items.
proof fn lemma_increasing_is_short(s: Seq<int>, bound: int)
    requires
        0 <= bound,
        forall|j: int| 0 <= j < s.len() ==> 0 <= #[trigger] s[j] < bound,
        forall|a: int, b: int| 0 <= a < b < s.len() ==> #[trigger] s[a] < #[trigger] s[b],
    ensures
        s.len() <= bound,
    decreases s.len(),
{
    if s.len() > 0 {
        let front = s.drop_last();
        assert forall|j: int| 0 <= j < front.len() implies 0 <= #[trigger] front[j] < s.last() by {
            assert(s[j] < s[s.len() - 1]);
        }
        lemma_increasing_is_short(front, s.last());
    }
}

} // verus!
