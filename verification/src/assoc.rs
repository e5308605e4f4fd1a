//! A string-keyed map kept as a vector of pairs with distinct keys.
//!
//! Lookup walks the vector; insertion overwrites the value of an existing
//! key in place.  The abstraction is the finite map from key views to
//! values, available as `@`.

use vstd::prelude::*;

verus! {

/// The finite map denoted by a sequence of key/value pairs, later pairs
/// winning.
pub open spec fn pairs_map<V>(s: Seq<(String, V)>) -> Map<Seq<char>, V>
    decreases s.len(),
{
    if s.len() == 0 {
        Map::empty()
    } else {
        pairs_map(s.drop_last()).insert(s.last().0@, s.last().1)
    }
}

/// No two pairs share a key.
pub open spec fn keys_distinct<V>(s: Seq<(String, V)>) -> bool {
    forall|i: int, j: int| 0 <= i < j < s.len() ==> s[i].0@ != s[j].0@
}

/// A key occurs in the map exactly when some pair holds it.
pub proof fn lemma_pairs_map_mem<V>(s: Seq<(String, V)>, k: Seq<char>)
    ensures
        pairs_map(s).contains_key(k) <==> exists|i: int| 0 <= i < s.len() && s[i].0@ == k,
    decreases s.len(),
{
    if s.len() > 0 {
        lemma_pairs_map_mem(s.drop_last(), k);
        if s.last().0@ == k {
            assert(s[s.len() - 1].0@ == k);
        } else if pairs_map(s).contains_key(k) {
            let i = choose|i: int| 0 <= i < s.drop_last().len() && s.drop_last()[i].0@ == k;
            assert(s[i].0@ == k);
        } else {
            if exists|i: int| 0 <= i < s.len() && s[i].0@ == k {
                let i = choose|i: int| 0 <= i < s.len() && s[i].0@ == k;
                assert(i < s.len() - 1);
                assert(s.drop_last()[i].0@ == k);
            }
        }
    }
}

/// With distinct keys, the pair holding a key decides its value.
pub proof fn lemma_pairs_map_at<V>(s: Seq<(String, V)>, i: int)
    requires
        keys_distinct(s),
        0 <= i < s.len(),
    ensures
        pairs_map(s).contains_key(s[i].0@),
        pairs_map(s)[s[i].0@] == s[i].1,
    decreases s.len(),
{
    if i == s.len() - 1 {
    } else {
        assert(s.drop_last()[i] == s[i]);
        lemma_pairs_map_at(s.drop_last(), i);
        assert(s[i].0@ != s.last().0@);
    }
}

/// Replacing the pair that holds a key overwrites that key's value.
pub proof fn lemma_pairs_map_update<V>(s: Seq<(String, V)>, i: int, p: (String, V))
    requires
        keys_distinct(s),
        0 <= i < s.len(),
        s[i].0@ == p.0@,
    ensures
        pairs_map(s.update(i, p)) =~= pairs_map(s).insert(p.0@, p.1),
    decreases s.len(),
{
    if i == s.len() - 1 {
        assert(s.update(i, p).drop_last() =~= s.drop_last());
        assert(s.update(i, p).last() == p);
    } else {
        assert(s.update(i, p).drop_last() =~= s.drop_last().update(i, p));
        assert(s.update(i, p).last() == s.last());
        assert(s.drop_last()[i] == s[i]);
        lemma_pairs_map_update(s.drop_last(), i, p);
        assert(s[i].0@ != s.last().0@);
    }
}

/// Appending a pair with a fresh key extends the map.
pub proof fn lemma_pairs_map_push<V>(s: Seq<(String, V)>, p: (String, V))
    ensures
        pairs_map(s.push(p)) == pairs_map(s).insert(p.0@, p.1),
{
    assert(s.push(p).drop_last() =~= s);
    assert(s.push(p).last() == p);
}

/// A string-keyed association map with distinct keys.
pub struct Assoc<V> {
    pairs: Vec<(String, V)>,
}

impl<V> View for Assoc<V> {
    type V = Map<Seq<char>, V>;

    closed spec fn view(&self) -> Map<Seq<char>, V> {
        pairs_map(self.pairs@)
    }
}

impl<V> Assoc<V> {
    #[verifier::type_invariant]
    closed spec fn inv(&self) -> bool {
        keys_distinct(self.pairs@)
    }

    /// The pairs in insertion order, for iteration.
    pub closed spec fn entries(&self) -> Seq<(String, V)> {
        self.pairs@
    }

    /// A key is in the map exactly when some entry holds it.
    pub proof fn lemma_mem(&self)
        ensures
            forall|k: Seq<char>|
                self@.contains_key(k) <==> exists|i: int|
                    0 <= i < self.entries().len() && self.entries()[i].0@ == k,
    {
        assert forall|k: Seq<char>| self@.contains_key(k) implies exists|i: int|
            0 <= i < self.entries().len() && self.entries()[i].0@ == k by {
            lemma_pairs_map_mem(self.pairs@, k);
            let i = choose|i: int| 0 <= i < self.pairs@.len() && self.pairs@[i].0@ == k;
            assert(0 <= i < self.entries().len() && self.entries()[i].0@ == k);
        }
        assert forall|k: Seq<char>|
            (exists|i: int| 0 <= i < self.entries().len() && self.entries()[i].0@ == k) implies
            self@.contains_key(k) by {
            let i = choose|i: int| 0 <= i < self.entries().len() && self.entries()[i].0@ == k;
            assert(0 <= i < self.pairs@.len() && self.pairs@[i].0@ == k);
            lemma_pairs_map_mem(self.pairs@, k);
        }
    }

    pub fn new() -> (r: Self)
        ensures
            r@ == Map::<Seq<char>, V>::empty(),
            r.entries().len() == 0,
    {
        Assoc { pairs: Vec::new() }
    }

    pub fn len(&self) -> (r: usize)
        ensures
            r == self.entries().len(),
    {
        self.pairs.len()
    }

    /// The key of the entry at an index.
    pub fn key_at(&self, i: usize) -> (r: &String)
        requires
            i < self.entries().len(),
        ensures
            r@ == self.entries()[i as int].0@,
            self@.contains_key(r@),
            self@[r@] == self.entries()[i as int].1,
    {
        proof {
            use_type_invariant(self);
            lemma_pairs_map_at(self.pairs@, i as int);
        }
        &self.pairs[i].0
    }

    /// The value of the entry at an index.
    pub fn val_at(&self, i: usize) -> (r: &V)
        requires
            i < self.entries().len(),
        ensures
            *r == self.entries()[i as int].1,
            self@.contains_key(self.entries()[i as int].0@),
            self@[self.entries()[i as int].0@] == self.entries()[i as int].1,
    {
        proof {
            use_type_invariant(self);
            lemma_pairs_map_at(self.pairs@, i as int);
        }
        &self.pairs[i].1
    }

    /// The index of the entry holding a key, if any.
    fn position(&self, key: &String) -> (r: Option<usize>)
        ensures
            match r {
                Some(i) => i < self.pairs@.len() && self.pairs@[i as int].0@ == key@,
                None => forall|i: int| 0 <= i < self.pairs@.len() ==> self.pairs@[i].0@ != key@,
            },
    {
        let n = self.pairs.len();
        let mut i: usize = 0;
        while i < n
            invariant
                n == self.pairs@.len(),
                i <= n,
                forall|j: int| 0 <= j < i ==> self.pairs@[j].0@ != key@,
            decreases n - i,
        {
            if self.pairs[i].0 == *key {
                return Some(i);
            }
            i = i + 1;
        }
        None
    }

    pub fn contains_key(&self, key: &String) -> (r: bool)
        ensures
            r == self@.contains_key(key@),
    {
        proof {
            lemma_pairs_map_mem(self.pairs@, key@);
        }
        self.position(key).is_some()
    }

    pub fn get(&self, key: &String) -> (r: Option<&V>)
        ensures
            match r {
                Some(v) => self@.contains_key(key@) && *v == self@[key@],
                None => !self@.contains_key(key@),
            },
    {
        proof {
            use_type_invariant(self);
            lemma_pairs_map_mem(self.pairs@, key@);
        }
        match self.position(key) {
            Some(i) => {
                proof {
                    lemma_pairs_map_at(self.pairs@, i as int);
                }
                Some(&self.pairs[i].1)
            },
            None => None,
        }
    }

    /// Insert a pair; an existing key has its value overwritten.
    pub fn insert(&mut self, key: String, value: V)
        ensures
            final(self)@ == old(self)@.insert(key@, value),
            old(self)@.contains_key(key@) ==> final(self).entries().len() == old(self).entries().len(),
            !old(self)@.contains_key(key@) ==> final(self).entries().len() == old(self).entries().len()
                + 1,
    {
        proof {
            use_type_invariant(&*self);
            lemma_pairs_map_mem(self.pairs@, key@);
        }
        let ghost s0 = self.pairs@;
        let pos = self.position(&key);
        let mut tmp: Vec<(String, V)> = Vec::new();
        core::mem::swap(&mut tmp, &mut self.pairs);
        match pos {
            Some(i) => {
                proof {
                    lemma_pairs_map_update(s0, i as int, (key, value));
                }
                tmp[i] = (key, value);
                proof {
                    assert(tmp@ =~= s0.update(i as int, (key, value)));
                    assert forall|a: int, b: int| 0 <= a < b < tmp@.len() implies tmp@[a].0@
                        != tmp@[b].0@ by {
                        assert(s0[a].0@ != s0[b].0@);
                    }
                }
            },
            None => {
                proof {
                    lemma_pairs_map_push(s0, (key, value));
                }
                tmp.push((key, value));
                proof {
                    assert forall|a: int, b: int| 0 <= a < b < tmp@.len() implies tmp@[a].0@
                        != tmp@[b].0@ by {
                        if b < tmp@.len() - 1 {
                            assert(s0[a].0@ != s0[b].0@);
                        } else {
                            assert(s0[a].0@ != key@);
                        }
                    }
                }
            },
        }
        core::mem::swap(&mut tmp, &mut self.pairs);
    }
}

} // verus!
