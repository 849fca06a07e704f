//! Patterns with `*` wildcards.
use vstd::prelude::*;
use vstd::string::*;
use crate::text::to_chars;
use crate::text;

verus! {

/// Whether a text fits a pattern, in which each `*` stands for zero or more
/// characters and every other character for itself.
pub open spec fn fits(pattern: Seq<char>, s: Seq<char>) -> bool
    decreases pattern.len(), s.len(),
{
    if pattern.len() == 0 {
        s.len() == 0
    } else if pattern[0] == '*' {
        fits(pattern.skip(1), s) || (s.len() > 0 && fits(pattern, s.skip(1)))
    } else {
        s.len() > 0 && s[0] == pattern[0] && fits(pattern.skip(1), s.skip(1))
    }
}

/// Whether a text fits a pattern.
pub fn matches_wildcard(pattern: &str, s: &str) -> (r: bool)
    ensures
        r == fits(pattern@, s@),
{
    let p = to_chars(pattern);
    let t = to_chars(s);
    let n: usize = t.len();
    // row[j]: whether the text from `j` on fits the pattern from `i` on.
    let mut row: Vec<bool> = Vec::new();
    let mut j: usize = 0;
    while j < n
        invariant
            j <= n,
            n == t.len(),
            row@.len() == j,
            forall|k: int| 0 <= k < j ==> !(#[trigger] row@[k]),
        decreases n - j,
    {
        row.push(false);
        j = j + 1;
    }
    row.push(true);
    let mut i: usize = p.len();
    assert forall|k: int| 0 <= k <= n implies #[trigger] row@[k] == fits(p@.skip(i as int), t@.skip(k)) by {}
    while i > 0
        invariant
            i <= p.len(),
            n == t.len(),
            row@.len() == n + 1,
            forall|k: int| 0 <= k <= n ==> #[trigger] row@[k] == fits(p@.skip(i as int), t@.skip(k)),
        decreases i,
    {
        let next = next_row(&p, i - 1, &t, &row);
        row = next;
        i = i - 1;
    }
    assert(p@.skip(0) =~= pattern@);
    assert(t@.skip(0) =~= s@);
    row[0]
}

/// The row of the pattern one character longer, filled from the end of the text.
fn next_row(p: &Vec<char>, i: usize, t: &Vec<char>, row: &Vec<bool>) -> (r: Vec<bool>)
    requires
        i < p.len(),
        row@.len() == t.len() + 1,
        forall|k: int| 0 <= k <= t.len() ==> #[trigger] row@[k] == fits(p@.skip(i + 1), t@.skip(k)),
    ensures
        r@.len() == row@.len(),
        forall|k: int| 0 <= k <= t.len() ==> #[trigger] r@[k] == fits(p@.skip(i as int), t@.skip(k)),
{
    let n: usize = t.len();
    let mut out: Vec<bool> = Vec::new();
    let mut c: usize = 0;
    while c < row.len()
        invariant
            c <= row.len(),
            out@.len() == c,
        decreases row.len() - c,
    {
        out.push(false);
        c = c + 1;
    }
    let ghost pi = p@.skip(i as int);
    assert(pi.skip(1) =~= p@.skip(i + 1));
    assert(pi[0] == p@[i as int]);
    let last: bool = if p[i] == '*' {
        row[n]
    } else {
        false
    };
    out.set(n, last);
    assert(out@[n as int] == fits(pi, t@.skip(n as int)));
    let mut j: usize = n;
    while j > 0
        invariant
            j <= n,
            n == t.len(),
            i < p.len(),
            row@.len() == n + 1,
            out@.len() == n + 1,
            pi == p@.skip(i as int),
            pi.skip(1) == p@.skip(i + 1),
            pi[0] == p@[i as int],
            forall|k: int| 0 <= k <= n ==> #[trigger] row@[k] == fits(p@.skip(i + 1), t@.skip(k)),
            forall|k: int| j <= k <= n ==> #[trigger] out@[k] == fits(pi, t@.skip(k)),
        decreases j,
    {
        j = j - 1;
        let value: bool = if p[i] == '*' {
            row[j] || out[j + 1]
        } else {
            t[j] == p[i] && row[j + 1]
        };
        proof {
            let tj = t@.skip(j as int);
            assert(tj.skip(1) =~= t@.skip(j + 1));
            assert(tj[0] == t@[j as int]);
            assert(out@[j + 1] == fits(pi, t@.skip(j + 1)));
            assert(row@[j as int] == fits(p@.skip(i + 1), t@.skip(j as int)));
            assert(row@[j + 1] == fits(p@.skip(i + 1), t@.skip(j + 1)));
        }
        out.set(j, value);
    }
    out
}

/// The pattern `*` fits every text.
pub proof fn star_fits_everything(s: Seq<char>)
    ensures
        fits(seq!['*'], s),
    decreases s.len(),
{
    let star = seq!['*'];
    assert(star.skip(1) =~= Seq::empty());
    if s.len() > 0 {
        star_fits_everything(s.skip(1));
    } else {
        assert(fits(star.skip(1), s));
    }
}

/// A pattern without `*` fits only itself.
pub proof fn a_plain_pattern_fits_itself(pattern: Seq<char>, s: Seq<char>)
    requires
        !pattern.contains('*'),
    ensures
        fits(pattern, s) == (pattern == s),
    decreases pattern.len(),
{
    if pattern.len() > 0 {
        assert(pattern.contains(pattern[0]));
        if s.len() > 0 {
            let p1 = pattern.skip(1);
            if p1.contains('*') {
                let k = choose|k: int| 0 <= k < p1.len() && p1[k] == '*';
                assert(pattern[k + 1] == '*');
            }
            a_plain_pattern_fits_itself(p1, s.skip(1));
            if p1 == s.skip(1) && pattern[0] == s[0] {
                assert forall|k: int| 0 <= k < pattern.len() implies pattern[k] == s[k] by {
                    if k > 0 {
                        assert(p1[k - 1] == s.skip(1)[k - 1]);
                    }
                }
                assert(pattern.len() == p1.len() + 1 && s.len() == s.skip(1).len() + 1);
                assert(pattern =~= s);
            }
        }
    } else {
        assert(s.len() == 0 ==> pattern =~= s);
    }
}

/// A text followed by `*` fits what starts with the text.
pub proof fn a_trailing_star_fits_a_prefix(head: Seq<char>, s: Seq<char>)
    requires
        !head.contains('*'),
    ensures
        fits(head.push('*'), s) == text::has_prefix(s, head),
    decreases head.len(),
{
    let pattern = head.push('*');
    if head.len() == 0 {
        assert(pattern =~= seq!['*']);
        star_fits_everything(s);
        assert(s.subrange(0, 0) =~= head);
    } else {
        assert(head.contains(head[0]));
        let h1 = head.skip(1);
        if h1.contains('*') {
            let k = choose|k: int| 0 <= k < h1.len() && h1[k] == '*';
            assert(head[k + 1] == '*');
        }
        assert(pattern.skip(1) =~= h1.push('*'));
        if s.len() > 0 {
            let s1 = s.skip(1);
            a_trailing_star_fits_a_prefix(h1, s1);
            if text::has_prefix(s, head) {
                assert(s.subrange(0, head.len() as int)[0] == head[0]);
                assert(s1.subrange(0, h1.len() as int) =~= h1) by {
                    assert forall|k: int| 0 <= k < h1.len() implies s1.subrange(0, h1.len() as int)[k] == h1[k] by {
                        assert(s.subrange(0, head.len() as int)[k + 1] == head[k + 1]);
                    }
                }
            }
            if s[0] == head[0] && text::has_prefix(s1, h1) {
                assert(s.subrange(0, head.len() as int) =~= head) by {
                    assert forall|k: int| 0 <= k < head.len() implies s.subrange(0, head.len() as int)[k] == head[k] by {
                        if k > 0 {
                            assert(s1.subrange(0, h1.len() as int)[k - 1] == h1[k - 1]);
                        }
                    }
                }
            }
        }
    }
}

/// A text fits two patterns one after the other exactly where its start fits the
/// first and what follows fits the second.
pub proof fn patterns_fit_one_after_the_other(p: Seq<char>, q: Seq<char>, s: Seq<char>)
    ensures
        fits(p + q, s) <==> exists|i: int|
            0 <= i <= s.len() && #[trigger] fits(p, s.subrange(0, i)) && fits(q, s.skip(i)),
    decreases p.len(), s.len(),
{
    if p.len() == 0 {
        assert(p + q =~= q);
        assert(s.subrange(0, 0) =~= Seq::empty());
        assert(s.skip(0) =~= s);
        if fits(q, s) {
            assert(fits(p, s.subrange(0, 0)));
        }
        if exists|i: int| 0 <= i <= s.len() && #[trigger] fits(p, s.subrange(0, i)) && fits(q, s.skip(i)) {
            let i = choose|i: int| 0 <= i <= s.len() && #[trigger] fits(p, s.subrange(0, i)) && fits(q, s.skip(i));
            assert(s.subrange(0, i).len() == 0);
            assert(i == 0);
        }
    } else {
        let p1 = p.skip(1);
        assert((p + q).skip(1) =~= p1 + q);
        assert((p + q)[0] == p[0]);
        patterns_fit_one_after_the_other(p1, q, s);
        if s.len() > 0 {
            let s1 = s.skip(1);
            patterns_fit_one_after_the_other(p1, q, s1);
            patterns_fit_one_after_the_other(p, q, s1);
            assert forall|i: int| 0 <= i <= s1.len() implies #[trigger] s.subrange(0, i + 1).skip(1) == s1.subrange(0, i)
                && s.skip(i + 1) == s1.skip(i) && s.subrange(0, i + 1)[0] == s[0] by {
                assert(s.subrange(0, i + 1).skip(1) =~= s1.subrange(0, i));
                assert(s.skip(i + 1) =~= s1.skip(i));
            }
        }
        if fits(p + q, s) {
            if p[0] == '*' && fits(p1 + q, s) {
                let i = choose|i: int| 0 <= i <= s.len() && #[trigger] fits(p1, s.subrange(0, i)) && fits(q, s.skip(i));
                assert(fits(p, s.subrange(0, i)));
            } else {
                let s1 = s.skip(1);
                let r = if p[0] == '*' {
                    p
                } else {
                    p1
                };
                assert(fits(r + q, s1));
                let i = choose|i: int| 0 <= i <= s1.len() && #[trigger] fits(r, s1.subrange(0, i)) && fits(q, s1.skip(i));
                assert(s.subrange(0, i + 1).skip(1) == s1.subrange(0, i));
                assert(fits(p, s.subrange(0, i + 1)));
            }
        }
        if exists|i: int| 0 <= i <= s.len() && #[trigger] fits(p, s.subrange(0, i)) && fits(q, s.skip(i)) {
            let i = choose|i: int| 0 <= i <= s.len() && #[trigger] fits(p, s.subrange(0, i)) && fits(q, s.skip(i));
            if p[0] == '*' && fits(p1, s.subrange(0, i)) {
                assert(fits(p1 + q, s));
            } else {
                assert(i > 0) by {
                    assert(s.subrange(0, i).len() == i);
                }
                let s1 = s.skip(1);
                let r = if p[0] == '*' {
                    p
                } else {
                    p1
                };
                assert(s.subrange(0, (i - 1) + 1).skip(1) == s1.subrange(0, i - 1));
                assert(fits(r, s1.subrange(0, i - 1)));
                assert(s.skip((i - 1) + 1) == s1.skip(i - 1));
                assert(fits(r + q, s1));
            }
        }
    }
}

} // verus!
