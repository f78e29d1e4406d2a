//! Free-form key/value annotations on contexts, entries and results.

use vstd::prelude::*;
use crate::string_map::StringMap;

verus! {

/// Free-form text annotations: at most one value for each key.
#[derive(Debug)]
pub struct Metadata {
    map: StringMap<String>,
}

impl View for Metadata {
    type V = Map<Seq<char>, Seq<char>>;

    closed spec fn view(&self) -> Map<Seq<char>, Seq<char>> {
        self.map@.map_values(|v: String| v@)
    }
}

impl Metadata {
    /// The keys in the order in which they first arrived.
    pub closed spec fn keys(&self) -> Seq<Seq<char>> {
        self.map.keys()
    }

    /// The keys are distinct and they are the domain of the view.
    pub open spec fn consistent(&self) -> bool {
        &&& self.keys().no_duplicates()
        &&& self@.dom().finite()
        &&& self@.len() == self.keys().len()
        &&& forall|k: Seq<char>| #[trigger] self@.contains_key(k) <==> self.keys().contains(k)
    }

    proof fn lemma_consistent(&self)
        requires
            self.map.consistent(),
        ensures
            self.consistent(),
    {
        assert(self@.dom() =~= self.map@.dom());
    }

    /// No annotations.
    pub fn new() -> (m: Self)
        ensures
            m@ == Map::<Seq<char>, Seq<char>>::empty(),
            m.keys() == Seq::<Seq<char>>::empty(),
            m.consistent(),
    {
        let m = Metadata { map: StringMap::new() };
        proof {
            assert(m@ =~= Map::<Seq<char>, Seq<char>>::empty());
            m.lemma_consistent();
        }
        m
    }

    /// The number of keys.
    pub fn len(&self) -> (n: usize)
        ensures
            n == self@.len(),
            n == self.keys().len(),
            self.consistent(),
    {
        let n = self.map.len();
        proof {
            self.lemma_consistent();
        }
        n
    }

    /// Whether `key` is annotated.
    pub fn contains_key(&self, key: &String) -> (b: bool)
        ensures
            b == self@.contains_key(key@),
    {
        self.map.contains_key(key)
    }

    /// The value at `key`, if there is one.
    pub fn get(&self, key: &String) -> (r: Option<&String>)
        ensures
            match r {
                Some(v) => self@.contains_key(key@) && v@ == self@[key@],
                None => !self@.contains_key(key@),
            },
    {
        self.map.get(key)
    }

    /// The key at place `i`.
    pub fn key_at(&self, i: usize) -> (k: &String)
        requires
            i < self.keys().len(),
        ensures
            k@ == self.keys()[i as int],
    {
        self.map.key_at(i)
    }

    /// The value that belongs to the key at place `i`.
    pub fn value_at(&self, i: usize) -> (v: &String)
        requires
            i < self.keys().len(),
        ensures
            self@.contains_key(self.keys()[i as int]),
            v@ == self@[self.keys()[i as int]],
    {
        let v = self.map.value_at(i);
        proof {
            assert(self.map@.contains_key(self.map.keys()[i as int]));
        }
        v
    }

    /// Sets the value at `key`, replacing an earlier one.
    pub fn insert(&mut self, key: String, value: String)
        ensures
            final(self)@ == old(self)@.insert(key@, value@),
            final(self).keys() == if old(self)@.contains_key(key@) {
                old(self).keys()
            } else {
                old(self).keys().push(key@)
            },
            final(self).consistent(),
    {
        let ghost before = self.map@;
        self.map.insert(key, value);
        proof {
            assert(self@ =~= old(self)@.insert(key@, value@));
            self.lemma_consistent();
        }
    }
}

impl Clone for Metadata {
    fn clone(&self) -> (r: Self)
        ensures
            r@ == self@,
            r.keys() == self.keys(),
    {
        let mut r = Metadata::new();
        let n = self.len();
        let mut i: usize = 0;
        while i < n
            invariant
                i <= n,
                n == self.keys().len(),
                self.consistent(),
                r.consistent(),
                r.keys() == self.keys().subrange(0, i as int),
                forall|k: Seq<char>| #[trigger] r@.contains_key(k) ==> self@.contains_key(k) && r@[k] == self@[k],
            decreases n - i,
        {
            let k = self.key_at(i).clone();
            let v = self.value_at(i).clone();
            proof {
                assert(!r.keys().contains(k@)) by {
                    if r.keys().contains(k@) {
                        let j = choose|j: int| 0 <= j < r.keys().len() && r.keys()[j] == k@;
                        assert(self.keys()[j] == self.keys()[i as int]);
                    }
                }
                assert(self.keys().subrange(0, i as int).push(k@) =~= self.keys().subrange(
                    0,
                    i as int + 1,
                ));
            }
            r.insert(k, v);
            i += 1;
        }
        proof {
            assert(self.keys().subrange(0, n as int) =~= self.keys());
            assert(r@ =~= self@) by {
                assert forall|k: Seq<char>| self@.contains_key(k) implies r@.contains_key(k) by {
                    assert(self.keys().contains(k));
                    assert(r.keys().contains(k));
                }
            }
        }
        r
    }
}

} // verus!
