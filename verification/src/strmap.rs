//! A string-keyed map that remembers insertion order.
use vstd::prelude::*;
use crate::text::str_eq;

verus! {

/// Whether `k` is the key of one of the pairs.
pub open spec fn has_key<V>(p: Seq<(Seq<char>, V)>, k: Seq<char>) -> bool {
    exists|i: int| 0 <= i < p.len() && (#[trigger] p[i]).0 == k
}

/// The position of a pair whose key is `k`.
pub open spec fn key_index<V>(p: Seq<(Seq<char>, V)>, k: Seq<char>) -> int {
    choose|i: int| 0 <= i < p.len() && (#[trigger] p[i]).0 == k
}

/// No key occurs twice.
pub open spec fn unique_keys<V>(p: Seq<(Seq<char>, V)>) -> bool {
    forall|i: int, j: int|
        0 <= i < p.len() && 0 <= j < p.len() && (#[trigger] p[i]).0 == (#[trigger] p[j]).0 ==> i == j
}

/// The map that a list of pairs stands for.
pub open spec fn pairs_to_map<V>(p: Seq<(Seq<char>, V)>) -> Map<Seq<char>, V> {
    Map::new(|k: Seq<char>| has_key(p, k), |k: Seq<char>| p[key_index(p, k)].1)
}

/// A pair of a list with unique keys is an entry of the map.
pub broadcast proof fn lemma_pair_in_map<V>(p: Seq<(Seq<char>, V)>, i: int)
    requires
        unique_keys(p),
        0 <= i < p.len(),
    ensures
        #![trigger pairs_to_map(p), p[i]]
        pairs_to_map(p).contains_key(p[i].0),
        pairs_to_map(p)[p[i].0] == p[i].1,
{
    assert(has_key(p, p[i].0));
    let j = key_index(p, p[i].0);
    assert(p[j].0 == p[i].0);
}

/// Replacing the value at one position updates the map at that key.
pub proof fn lemma_pairs_update<V>(p: Seq<(Seq<char>, V)>, i: int, v: V)
    requires
        unique_keys(p),
        0 <= i < p.len(),
    ensures
        unique_keys(p.update(i, (p[i].0, v))),
        pairs_to_map(p.update(i, (p[i].0, v))) == pairs_to_map(p).insert(p[i].0, v),
{
    let q = p.update(i, (p[i].0, v));
    assert forall|a: int, b: int|
        0 <= a < q.len() && 0 <= b < q.len() && (#[trigger] q[a]).0 == (#[trigger] q[b]).0 implies a == b by {
        assert(q[a].0 == p[a].0 && q[b].0 == p[b].0);
    }
    assert forall|k: Seq<char>| has_key(q, k) == (has_key(p, k) || k == p[i].0) by {
        if has_key(q, k) {
            assert(p[key_index(q, k)].0 == k);
        }
        if has_key(p, k) {
            assert(q[key_index(p, k)].0 == k);
        }
        assert(q[i].0 == p[i].0);
    }
    assert forall|k: Seq<char>| has_key(q, k) implies #[trigger] pairs_to_map(q)[k] == pairs_to_map(p).insert(p[i].0, v)[k] by {
        let j = key_index(q, k);
        lemma_pair_in_map(q, j);
        lemma_pair_in_map(p, j);
    }
    assert(pairs_to_map(q) =~= pairs_to_map(p).insert(p[i].0, v));
}

/// Appending a pair with a new key adds one entry.
pub proof fn lemma_pairs_push<V>(p: Seq<(Seq<char>, V)>, k: Seq<char>, v: V)
    requires
        unique_keys(p),
        !has_key(p, k),
    ensures
        unique_keys(p.push((k, v))),
        pairs_to_map(p.push((k, v))) == pairs_to_map(p).insert(k, v),
{
    let q = p.push((k, v));
    assert forall|a: int, b: int|
        0 <= a < q.len() && 0 <= b < q.len() && (#[trigger] q[a]).0 == (#[trigger] q[b]).0 implies a == b by {
        if a < p.len() && b < p.len() {
            assert(p[a].0 == p[b].0);
        } else if a < p.len() {
            assert(p[a].0 == k);
        } else if b < p.len() {
            assert(p[b].0 == k);
        }
    }
    assert forall|x: Seq<char>| has_key(q, x) == (has_key(p, x) || x == k) by {
        if has_key(q, x) {
            let j = key_index(q, x);
            if j < p.len() {
                assert(p[j].0 == x);
            }
        }
        if has_key(p, x) {
            assert(q[key_index(p, x)].0 == x);
        }
        assert(q[p.len() as int].0 == k);
    }
    assert forall|x: Seq<char>| has_key(q, x) implies #[trigger] pairs_to_map(q)[x] == pairs_to_map(p).insert(k, v)[x] by {
        let j = key_index(q, x);
        lemma_pair_in_map(q, j);
        if j < p.len() {
            lemma_pair_in_map(p, j);
        }
    }
    assert(pairs_to_map(q) =~= pairs_to_map(p).insert(k, v));
}

/// Taking one pair out removes its key.
pub proof fn lemma_pairs_remove<V>(p: Seq<(Seq<char>, V)>, i: int)
    requires
        unique_keys(p),
        0 <= i < p.len(),
    ensures
        unique_keys(p.remove(i)),
        pairs_to_map(p.remove(i)) == pairs_to_map(p).remove(p[i].0),
{
    let q = p.remove(i);
    assert forall|a: int| 0 <= a < q.len() implies #[trigger] q[a] == p[if a < i { a } else { a + 1 }] by {}
    assert forall|a: int, b: int|
        0 <= a < q.len() && 0 <= b < q.len() && (#[trigger] q[a]).0 == (#[trigger] q[b]).0 implies a == b by {
        let a2 = if a < i { a } else { a + 1 };
        let b2 = if b < i { b } else { b + 1 };
        assert(p[a2].0 == p[b2].0);
    }
    assert forall|k: Seq<char>| has_key(q, k) == (has_key(p, k) && k != p[i].0) by {
        if has_key(q, k) {
            let j = key_index(q, k);
            let j2 = if j < i { j } else { j + 1 };
            assert(p[j2].0 == k);
        }
        if has_key(p, k) && k != p[i].0 {
            let j = key_index(p, k);
            assert(q[if j < i { j } else { j - 1 }].0 == k);
        }
    }
    assert forall|k: Seq<char>| has_key(q, k) implies #[trigger] pairs_to_map(q)[k] == pairs_to_map(p)[k] by {
        let j = key_index(q, k);
        lemma_pair_in_map(q, j);
        lemma_pair_in_map(p, if j < i { j } else { j + 1 });
    }
    assert(pairs_to_map(q) =~= pairs_to_map(p).remove(p[i].0));
}

/// A map from strings to values, kept in insertion order.
#[derive(Debug)]
pub struct StrMap<V> {
    pub(crate) entries: Vec<(String, V)>,
}

/// The pairs of a list of entries.
pub open spec fn entry_pairs<V>(s: Seq<(String, V)>) -> Seq<(Seq<char>, V)> {
    Seq::new(s.len(), |i: int| (s[i].0@, s[i].1))
}

impl<V> View for StrMap<V> {
    type V = Map<Seq<char>, V>;

    open spec fn view(&self) -> Map<Seq<char>, V> {
        pairs_to_map(self.pairs())
    }
}

impl<V> StrMap<V> {
    /// The entries in insertion order.
    pub closed spec fn pairs(self) -> Seq<(Seq<char>, V)> {
        entry_pairs(self.entries@)
    }

    #[verifier::type_invariant]
    pub(crate) closed spec fn keys_are_unique(self) -> bool {
        unique_keys(entry_pairs(self.entries@))
    }

    /// What the pairs are.
    pub(crate) proof fn lemma_pairs(self)
        ensures
            self.pairs() == entry_pairs(self.entries@),
    {
    }

    /// An empty map.
    pub fn new() -> (r: Self)
        ensures
            r@ == Map::<Seq<char>, V>::empty(),
            r.pairs() == Seq::<(Seq<char>, V)>::empty(),
    {
        let r = StrMap { entries: Vec::new() };
        assert(r.pairs() =~= Seq::empty());
        assert(r@ =~= Map::empty());
        r
    }

    /// Number of entries.
    pub fn len(&self) -> (r: usize)
        ensures
            r == self.pairs().len(),
            unique_keys(self.pairs()),
    {
        proof {
            use_type_invariant(self);
        }
        self.entries.len()
    }

    /// Whether there is no entry.
    pub fn is_empty(&self) -> (r: bool)
        ensures
            r == (self.pairs().len() == 0),
            r == (self@ == Map::<Seq<char>, V>::empty()),
    {
        proof {
            use_type_invariant(self);
            if self.pairs().len() == 0 {
                assert(self@ =~= Map::empty());
            } else {
                lemma_pair_in_map(self.pairs(), 0);
            }
        }
        self.entries.len() == 0
    }

    /// Position of the entry with this key.
    pub fn position(&self, k: &str) -> (r: Option<usize>)
        ensures
            unique_keys(self.pairs()),
            match r {
                Some(i) => i < self.pairs().len() && self.pairs()[i as int].0 == k@,
                None => !has_key(self.pairs(), k@),
            },
    {
        proof {
            use_type_invariant(self);
        }
        let mut i: usize = 0;
        while i < self.entries.len()
            invariant
                i <= self.entries.len(),
                unique_keys(self.pairs()),
                forall|j: int| 0 <= j < i ==> (#[trigger] self.pairs()[j]).0 != k@,
            decreases self.entries.len() - i,
        {
            assert(self.pairs()[i as int].0 == self.entries@[i as int].0@);
            if str_eq(self.entries[i].0.as_str(), k) {
                return Some(i);
            }
            i = i + 1;
        }
        None
    }

    /// The key of the entry at a position.
    pub fn key_at(&self, i: usize) -> (r: &String)
        requires
            i < self.pairs().len(),
        ensures
            r@ == self.pairs()[i as int].0,
    {
        &self.entries[i].0
    }

    /// The value of the entry at a position.
    pub fn value_at(&self, i: usize) -> (r: &V)
        requires
            i < self.pairs().len(),
        ensures
            *r == self.pairs()[i as int].1,
            unique_keys(self.pairs()),
            self@.contains_key(self.pairs()[i as int].0),
            self@[self.pairs()[i as int].0] == *r,
    {
        proof {
            use_type_invariant(self);
            lemma_pair_in_map(self.pairs(), i as int);
        }
        &self.entries[i].1
    }

    /// The value under a key.
    pub fn get(&self, k: &str) -> (r: Option<&V>)
        ensures
            match r {
                Some(v) => self@.contains_key(k@) && self@[k@] == *v,
                None => !self@.contains_key(k@),
            },
    {
        match self.position(k) {
            Some(i) => {
                Some(self.value_at(i))
            },
            None => None,
        }
    }

    /// Whether a key is present.
    pub fn contains_key(&self, k: &str) -> (r: bool)
        ensures
            r == self@.contains_key(k@),
    {
        match self.position(k) {
            Some(i) => {
                let _v = self.value_at(i);
                true
            },
            None => false,
        }
    }

    /// Set the value under a key: in place where the key is present, else at
    /// the end.
    pub fn insert(&mut self, k: String, v: V)
        ensures
            final(self)@ == old(self)@.insert(k@, v),
            unique_keys(final(self).pairs()),
            match pair_position(old(self).pairs(), k@) {
                Some(i) => final(self).pairs() == old(self).pairs().update(i, (k@, v)),
                None => final(self).pairs() == old(self).pairs().push((k@, v)),
            },
    {
        let ghost p = self.pairs();
        let pos = self.position(k.as_str());
        let mut e: Vec<(String, V)> = Vec::new();
        proof {
            use_type_invariant(&*self);
            assert(entry_pairs(e@) =~= Seq::empty());
        }
        std::mem::swap(&mut e, &mut self.entries);
        assert(entry_pairs(e@) == p);
        match pos {
            Some(i) => {
                proof {
                    lemma_pairs_update(p, i as int, v);
                    assert(p[key_index(p, k@)].0 == k@);
                    assert(key_index(p, k@) == i);
                }
                e.set(i, (k, v));
                assert(entry_pairs(e@) =~= p.update(i as int, (k@, v)));
            },
            None => {
                proof {
                    lemma_pairs_push(p, k@, v);
                }
                e.push((k, v));
                assert(entry_pairs(e@) =~= p.push((k@, v)));
            },
        }
        self.entries = e;
    }

    /// Take the entry with this key out.
    pub fn remove(&mut self, k: &str) -> (r: Option<V>)
        ensures
            final(self)@ == old(self)@.remove(k@),
            match r {
                Some(v) => old(self)@.contains_key(k@) && old(self)@[k@] == v,
                None => !old(self)@.contains_key(k@),
            },
            match pair_position(old(self).pairs(), k@) {
                Some(i) => final(self).pairs() == old(self).pairs().remove(i),
                None => final(self).pairs() == old(self).pairs(),
            },
    {
        let ghost p = self.pairs();
        let pos = self.position(k);
        match pos {
            Some(i) => {
                let mut e: Vec<(String, V)> = Vec::new();
                proof {
                    use_type_invariant(&*self);
                    assert(entry_pairs(e@) =~= Seq::empty());
                    lemma_pair_in_map(p, i as int);
                    lemma_pairs_remove(p, i as int);
                    assert(p[key_index(p, k@)].0 == k@);
                    assert(key_index(p, k@) == i);
                }
                std::mem::swap(&mut e, &mut self.entries);
                let (_key, v) = e.remove(i);
                assert(entry_pairs(e@) =~= p.remove(i as int));
                self.entries = e;
                Some(v)
            },
            None => {
                assert(self@.remove(k@) =~= self@);
                None
            },
        }
    }

    /// Drop every entry.
    pub fn clear(&mut self)
        ensures
            final(self)@ == Map::<Seq<char>, V>::empty(),
            final(self).pairs() == Seq::<(Seq<char>, V)>::empty(),
    {
        let e: Vec<(String, V)> = Vec::new();
        assert(entry_pairs(e@) =~= Seq::empty());
        self.entries = e;
        assert(self@ =~= Map::empty());
    }

    /// A map with these entries, which have distinct keys.
    pub(crate) fn from_entries(entries: Vec<(String, V)>) -> (r: Self)
        requires
            unique_keys(entry_pairs(entries@)),
        ensures
            r.pairs() == entry_pairs(entries@),
    {
        StrMap { entries }
    }
}

/// Where the pair with key `k` stands, if any.
pub open spec fn pair_position<V>(p: Seq<(Seq<char>, V)>, k: Seq<char>) -> Option<int> {
    if has_key(p, k) {
        Some(key_index(p, k))
    } else {
        None
    }
}

} // verus!
