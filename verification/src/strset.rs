//! A set of strings that remembers insertion order.
use vstd::prelude::*;
use crate::strmap::StrMap;
use crate::strmap;

verus! {

/// A set of strings.
#[derive(Debug)]
pub struct StrSet {
    map: StrMap<()>,
}

impl View for StrSet {
    type V = Set<Seq<char>>;

    closed spec fn view(&self) -> Set<Seq<char>> {
        self.map@.dom()
    }
}

impl StrSet {
    /// The members in insertion order.
    pub closed spec fn members(self) -> Seq<Seq<char>> {
        Seq::new(self.map.pairs().len(), |i: int| self.map.pairs()[i].0)
    }

    /// An empty set.
    pub fn new() -> (r: Self)
        ensures
            r@ == Set::<Seq<char>>::empty(),
            r.members() == Seq::<Seq<char>>::empty(),
    {
        let r = StrSet { map: StrMap::new() };
        assert(r.members() =~= Seq::empty());
        assert(r@ =~= Set::empty());
        r
    }

    /// Number of members.
    pub fn len(&self) -> (r: usize)
        ensures
            r == self.members().len(),
            self@ == self.members().to_set(),
            self@.finite(),
            r == self@.len(),
    {
        let n = self.map.len();
        proof {
            let p = self.map.pairs();
            assert forall|i: int, j: int|
                0 <= i < self.members().len() && 0 <= j < self.members().len() && i != j implies self.members()[i]
                != self.members()[j] by {
                assert(p[i].0 == self.members()[i] && p[j].0 == self.members()[j]);
            }
            self.members().unique_seq_to_set();
            assert forall|k: Seq<char>| self@.contains(k) == self.members().contains(k) by {
                if self@.contains(k) {
                    assert(strmap::has_key(p, k));
                    assert(self.members()[strmap::key_index(p, k)] == k);
                }
                if self.members().contains(k) {
                    let i = choose|i: int| 0 <= i < self.members().len() && self.members()[i] == k;
                    strmap::lemma_pair_in_map(p, i);
                }
            }
            assert(self@ =~= self.members().to_set());
        }
        n
    }

    /// The member at a position.
    pub fn at(&self, i: usize) -> (r: &String)
        requires
            i < self.members().len(),
        ensures
            r@ == self.members()[i as int],
            self@.contains(r@),
    {
        let _v = self.map.value_at(i);
        self.map.key_at(i)
    }

    /// Whether a string is a member.
    pub fn contains(&self, k: &str) -> (r: bool)
        ensures
            r == self@.contains(k@),
    {
        self.map.contains_key(k)
    }

    /// Add a member.
    pub fn insert(&mut self, k: String)
        ensures
            final(self)@ == old(self)@.insert(k@),
    {
        self.map.insert(k, ());
        assert(self@ =~= old(self)@.insert(k@));
    }

    /// Add every member of another set.
    pub fn extend(&mut self, other: &StrSet)
        ensures
            final(self)@ == old(self)@.union(other@),
    {
        let n = other.len();
        let mut i: usize = 0;
        while i < n
            invariant
                i <= n,
                n == other.members().len(),
                other@ == other.members().to_set(),
                forall|k: Seq<char>| self@.contains(k) == (old(self)@.contains(k) || other.members().subrange(0, i as int).contains(k)),
            decreases n - i,
        {
            let k = other.at(i).clone();
            let ghost before = self@;
            self.insert(k);
            proof {
                let a = other.members().subrange(0, i as int);
                let b = other.members().subrange(0, i + 1);
                assert(b =~= a.push(other.members()[i as int]));
                assert forall|x: Seq<char>| b.contains(x) == (a.contains(x) || x == k@) by {
                    if b.contains(x) {
                        let j = b.index_of(x);
                        if j < i {
                            assert(a[j] == x);
                        }
                    }
                    if a.contains(x) {
                        assert(b[a.index_of(x)] == x);
                    }
                    assert(b[i as int] == k@);
                }
            }
            i = i + 1;
        }
        proof {
            assert(other.members().subrange(0, n as int) =~= other.members());
            assert(self@ =~= old(self)@.union(other@));
        }
    }
}

impl Clone for StrSet {
    fn clone(&self) -> (r: Self)
        ensures
            r@ == self@,
    {
        let mut r = StrSet::new();
        r.extend(self);
        assert(r@ =~= self@);
        r
    }
}

} // verus!
