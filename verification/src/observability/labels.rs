//! Sorted labels.
use vstd::prelude::*;
use vstd::string::*;
use crate::strmap::StrMap;
use crate::text::comes_before;
use crate::events::subscribers;
use crate::strmap;
use crate::text;

verus! {

/// The texts of a list of labels.
pub open spec fn label_texts(s: Seq<(String, String)>) -> Seq<(Seq<char>, Seq<char>)> {
    Seq::new(s.len(), |i: int| (s[i].0@, s[i].1@))
}

/// Whether labels are in the order of their names, none of which occurs twice.
pub open spec fn in_order(s: Seq<(Seq<char>, Seq<char>)>) -> bool {
    forall|i: int, j: int| 0 <= i < j < s.len() ==> text::text_before((#[trigger] s[i]).0, (#[trigger] s[j]).0)
}

/// Whether a list holds the labels of a map in the order of their names.
pub open spec fn lists(s: Seq<(Seq<char>, Seq<char>)>, m: Map<Seq<char>, Seq<char>>) -> bool {
    in_order(s) && strmap::pairs_to_map(s) == m
}

proof fn lemma_in_order_is_unique(s: Seq<(Seq<char>, Seq<char>)>)
    requires
        in_order(s),
    ensures
        strmap::unique_keys(s),
{
    assert forall|i: int, j: int|
        0 <= i < s.len() && 0 <= j < s.len() && (#[trigger] s[i]).0 == (#[trigger] s[j]).0 implies i == j by {
        text::text_order_is_total(s[i].0, s[j].0);
    }
}

/// There is one list for each map.
pub proof fn sorted_labels_are_unique(s: Seq<(Seq<char>, Seq<char>)>, t: Seq<(Seq<char>, Seq<char>)>)
    requires
        in_order(s),
        in_order(t),
        strmap::pairs_to_map(s) == strmap::pairs_to_map(t),
    ensures
        s == t,
    decreases s.len(),
{
    lemma_in_order_is_unique(s);
    lemma_in_order_is_unique(t);
    if s.len() == 0 {
        if t.len() > 0 {
            strmap::lemma_pair_in_map(t, 0);
            assert(strmap::has_key(s, t[0].0));
        }
        assert(s =~= t);
    } else {
        strmap::lemma_pair_in_map(s, 0);
        assert(strmap::has_key(t, s[0].0));
        let a = s.len() - 1;
        let b = t.len() - 1;
        strmap::lemma_pair_in_map(s, a);
        strmap::lemma_pair_in_map(t, b);
        assert(strmap::has_key(t, s[a].0));
        assert(strmap::has_key(s, t[b].0));
        let x = strmap::key_index(t, s[a].0);
        let y = strmap::key_index(s, t[b].0);
        assert(t[x].0 == s[a].0);
        assert(s[y].0 == t[b].0);
        if x < b {
            assert(text::text_before(t[x].0, t[b].0));
            if y < a {
                assert(text::text_before(s[y].0, s[a].0));
                text::text_order_is_total(s[a].0, t[b].0);
            }
            text::text_order_is_total(s[a].0, t[b].0);
        }
        assert(s[a].0 == t[b].0);
        strmap::lemma_pairs_remove(s, a);
        strmap::lemma_pairs_remove(t, b);
        assert(s.remove(a) =~= s.drop_last());
        assert(t.remove(b) =~= t.drop_last());
        let p = s.drop_last();
        let q = t.drop_last();
        assert forall|i: int, j: int| 0 <= i < j < p.len() implies text::text_before((#[trigger] p[i]).0, (#[trigger] p[j]).0) by {
            assert(p[i] == s[i] && p[j] == s[j]);
        }
        assert forall|i: int, j: int| 0 <= i < j < q.len() implies text::text_before((#[trigger] q[i]).0, (#[trigger] q[j]).0) by {
            assert(q[i] == t[i] && q[j] == t[j]);
        }
        sorted_labels_are_unique(p, q);
        assert(s =~= p.push(s[a]));
        assert(t =~= q.push(t[b]));
    }
}

proof fn lemma_insert_label(s: Seq<(Seq<char>, Seq<char>)>, n: int, k: Seq<char>, v: Seq<char>)
    requires
        in_order(s),
        0 <= n <= s.len(),
        n == 0 || text::text_before(s[n - 1].0, k),
        n == s.len() || text::text_before(k, s[n].0),
    ensures
        in_order(s.insert(n, (k, v))),
        strmap::pairs_to_map(s.insert(n, (k, v))) == strmap::pairs_to_map(s).insert(k, v),
{
    let t = s.insert(n, (k, v));
    assert forall|i: int| 0 <= i < t.len() implies #[trigger] t[i] == (if i < n {
        s[i]
    } else if i == n {
        (k, v)
    } else {
        s[i - 1]
    }) by {}
    assert forall|i: int| 0 <= i < n implies text::text_before((#[trigger] s[i]).0, k) by {
        if i < n - 1 {
            assert(text::text_before(s[i].0, s[n - 1].0));
            text::text_order_is_transitive(s[i].0, s[n - 1].0, k);
        }
    }
    assert forall|i: int| n <= i < s.len() implies text::text_before(k, (#[trigger] s[i]).0) by {
        if i > n {
            assert(text::text_before(s[n].0, s[i].0));
            text::text_order_is_transitive(k, s[n].0, s[i].0);
        }
    }
    assert forall|i: int, j: int| 0 <= i < j < t.len() implies text::text_before((#[trigger] t[i]).0, (#[trigger] t[j]).0) by {
        let x = if i < n { i } else { i - 1 };
        let y = if j < n { j } else { j - 1 };
        if i != n && j != n {
            assert(text::text_before(s[x].0, s[y].0));
        } else if i == n {
            assert(text::text_before(k, s[y].0));
        } else {
            assert(text::text_before(s[x].0, k));
        }
    }
    lemma_in_order_is_unique(s);
    lemma_in_order_is_unique(t);
    strmap::lemma_pairs_remove(t, n);
    assert(t.remove(n) =~= s);
    strmap::lemma_pair_in_map(t, n);
    let m = strmap::pairs_to_map(t);
    assert(strmap::pairs_to_map(s) == m.remove(k));
    assert(m =~= m.remove(k).insert(k, v));
}

/// The labels of a map in the order of their names.
pub fn sort_labels(m: &StrMap<String>) -> (r: Vec<(String, String)>)
    ensures
        lists(label_texts(r@), subscribers::text_map(m@)),
{
    let n: usize = m.len();
    let ghost p = m.pairs();
    let ghost q = subscribers::text_pairs(p);
    let mut out: Vec<(String, String)> = Vec::new();
    let mut i: usize = 0;
    assert(strmap::pairs_to_map(label_texts(out@)) =~= strmap::pairs_to_map(q.subrange(0, 0)));
    while i < n
        invariant
            i <= n,
            n == p.len(),
            p == m.pairs(),
            q == subscribers::text_pairs(p),
            strmap::unique_keys(p),
            in_order(label_texts(out@)),
            strmap::pairs_to_map(label_texts(out@)) == strmap::pairs_to_map(q.subrange(0, i as int)),
        decreases n - i,
    {
        let key = m.key_at(i).clone();
        let value = m.value_at(i).clone();
        let ghost s = label_texts(out@);
        proof {
            lemma_in_order_is_unique(s);
            assert(!strmap::has_key(s, key@)) by {
                if strmap::has_key(s, key@) {
                    strmap::lemma_pair_in_map(s, strmap::key_index(s, key@));
                    let part = q.subrange(0, i as int);
                    assert(strmap::pairs_to_map(part).contains_key(key@));
                    let j = strmap::key_index(part, key@);
                    assert(part[j].0 == key@);
                    assert(p[j].0 == p[i as int].0);
                }
            }
        }
        let mut at: usize = out.len();
        while at > 0 && comes_before(key.as_str(), out[at - 1].0.as_str())
            invariant
                at <= out.len(),
                s == label_texts(out@),
                in_order(s),
                at < s.len() ==> text::text_before(key@, s[at as int].0),
            decreases at,
        {
            at = at - 1;
            assert(s[at as int].0 == out@[at as int].0@);
        }
        proof {
            if at > 0 {
                assert(s[at - 1].0 == out@[at - 1].0@);
                text::text_order_is_total(s[at - 1].0, key@);
                if s[at - 1].0 == key@ {
                    assert(strmap::has_key(s, key@));
                }
            }
            lemma_insert_label(s, at as int, key@, value@);
            let part = q.subrange(0, i as int);
            let more = q.subrange(0, i + 1);
            assert(more =~= part.push((key@, value@)));
            assert(strmap::unique_keys(part)) by {
                assert forall|a: int, b: int|
                    0 <= a < part.len() && 0 <= b < part.len() && (#[trigger] part[a]).0 == (#[trigger] part[b]).0 implies a == b by {
                    assert(p[a].0 == p[b].0);
                }
            }
            assert(!strmap::has_key(part, key@)) by {
                if strmap::has_key(part, key@) {
                    let j = strmap::key_index(part, key@);
                    assert(p[j].0 == p[i as int].0);
                }
            }
            strmap::lemma_pairs_push(part, key@, value@);
        }
        out.insert(at, (key, value));
        assert(label_texts(out@) =~= s.insert(at as int, (key@, value@)));
        i = i + 1;
    }
    proof {
        assert(q.subrange(0, q.len() as int) =~= q);
        let a = strmap::pairs_to_map(q);
        let b = subscribers::text_map(m@);
        assert(strmap::unique_keys(q)) by {
            assert forall|x: int, y: int|
                0 <= x < q.len() && 0 <= y < q.len() && (#[trigger] q[x]).0 == (#[trigger] q[y]).0 implies x == y by {
                assert(p[x].0 == p[y].0);
            }
        }
        assert forall|k: Seq<char>| a.contains_key(k) == b.contains_key(k) by {
            if strmap::has_key(q, k) {
                assert(p[strmap::key_index(q, k)].0 == k);
            }
            if strmap::has_key(p, k) {
                assert(q[strmap::key_index(p, k)].0 == k);
            }
        }
        assert forall|k: Seq<char>| #[trigger] a.contains_key(k) implies a[k] == b[k] by {
            let x = strmap::key_index(q, k);
            strmap::lemma_pair_in_map(q, x);
            strmap::lemma_pair_in_map(p, x);
        }
        assert(a =~= b);
    }
    out
}

/// Labels in order have every name once, and a name before another in the text
/// order first.
pub proof fn labels_stand_by_their_names(s: Seq<(Seq<char>, Seq<char>)>, i: int, j: int)
    requires
        in_order(s),
        0 <= i < j < s.len(),
    ensures
        text::text_before(s[i].0, s[j].0),
{
}

} // verus!
