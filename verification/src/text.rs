//! Character-level string helpers.
use vstd::prelude::*;
use vstd::string::*;

verus! {

/// `std::string::String::push` appends the character at the end.
pub assume_specification[ std::string::String::push ](s: &mut std::string::String, c: char)
    ensures
        final(s)@ == old(s)@.push(c),
;

/// Whether two string slices hold the same characters.
pub fn str_eq(a: &str, b: &str) -> (r: bool)
    ensures
        r == (a@ == b@),
{
    a.to_owned() == b.to_owned()
}

/// The characters of a string slice.
pub fn to_chars(s: &str) -> (r: Vec<char>)
    ensures
        r@ == s@,
{
    let mut out: Vec<char> = Vec::new();
    for c in it: s.chars()
        invariant
            out@ == s@.subrange(0, it.index() as int),
            it.seq() == s@,
    {
        out.push(c);
        assert(out@ =~= s@.subrange(0, it.index() as int + 1));
    }
    assert(out@ =~= s@);
    out
}

/// The characters of an optional string.
pub open spec fn opt_text(o: Option<String>) -> Option<Seq<char>> {
    match o {
        Some(s) => Some(s@),
        None => None,
    }
}

/// The characters of an optional string slice.
pub open spec fn opt_str(o: Option<&str>) -> Option<Seq<char>> {
    match o {
        Some(s) => Some(s@),
        None => None,
    }
}

/// The characters of each string of a list.
pub open spec fn texts(s: Seq<String>) -> Seq<Seq<char>> {
    Seq::new(s.len(), |i: int| s[i]@)
}

/// A copy of an optional string.
pub fn clone_opt(o: &Option<String>) -> (r: Option<String>)
    ensures
        r == *o,
{
    match o {
        Some(s) => Some(s.clone()),
        None => None,
    }
}

/// A copy of a list of strings.
pub fn clone_texts(v: &Vec<String>) -> (r: Vec<String>)
    ensures
        r@ == v@,
{
    let mut out: Vec<String> = Vec::new();
    let mut i: usize = 0;
    while i < v.len()
        invariant
            i <= v.len(),
            out@ == v@.subrange(0, i as int),
        decreases v.len() - i,
    {
        out.push(v[i].clone());
        i = i + 1;
        assert(out@ =~= v@.subrange(0, i as int));
    }
    assert(out@ =~= v@);
    out
}

/// Whether `p` stands at the start of `s`.
pub open spec fn has_prefix(s: Seq<char>, p: Seq<char>) -> bool {
    p.len() <= s.len() && s.subrange(0, p.len() as int) == p
}

/// Whether `s` starts with `p`.
pub fn starts_with(s: &str, p: &str) -> (r: bool)
    ensures
        r == has_prefix(s@, p@),
{
    let a = to_chars(s);
    let b = to_chars(p);
    if b.len() > a.len() {
        return false;
    }
    let mut i: usize = 0;
    while i < b.len()
        invariant
            i <= b.len() <= a.len(),
            a@ == s@,
            b@ == p@,
            forall|j: int| 0 <= j < i ==> a@[j] == b@[j],
        decreases b.len() - i,
    {
        if a[i] != b[i] {
            assert(s@.subrange(0, p@.len() as int)[i as int] != p@[i as int]);
            return false;
        }
        i = i + 1;
    }
    assert(s@.subrange(0, p@.len() as int) =~= p@);
    true
}

/// Whether `p` stands in `s` at position `i`.
pub open spec fn occurs_at(s: Seq<char>, p: Seq<char>, i: int) -> bool {
    0 <= i && i + p.len() <= s.len() && s.subrange(i, i + p.len()) == p
}

/// Whether `p` stands somewhere in `s`.
pub open spec fn has_infix(s: Seq<char>, p: Seq<char>) -> bool {
    exists|i: int| occurs_at(s, p, i)
}

/// Whether the characters of `p` stand in `s` at position `i`.
fn matches_at(s: &Vec<char>, p: &Vec<char>, i: usize) -> (r: bool)
    requires
        i + p.len() <= s.len(),
    ensures
        r == occurs_at(s@, p@, i as int),
{
    let mut j: usize = 0;
    while j < p.len()
        invariant
            j <= p.len(),
            i + p.len() <= s.len(),
            forall|k: int| 0 <= k < j ==> s@[i + k] == p@[k],
        decreases p.len() - j,
    {
        if s[i + j] != p[j] {
            assert(s@.subrange(i as int, i + p.len())[j as int] != p@[j as int]);
            return false;
        }
        j = j + 1;
    }
    assert(s@.subrange(i as int, i + p.len()) =~= p@);
    true
}

/// Whether `s` contains `p`.
pub fn contains(s: &str, p: &str) -> (r: bool)
    ensures
        r == has_infix(s@, p@),
{
    let a = to_chars(s);
    let b = to_chars(p);
    if b.len() > a.len() {
        return false;
    }
    let last: usize = a.len() - b.len();
    let mut i: usize = 0;
    while i <= last
        invariant
            b.len() <= a.len(),
            last == a.len() - b.len(),
            a@ == s@,
            b@ == p@,
            forall|k: int| 0 <= k < i ==> !occurs_at(s@, p@, k),
        decreases last + 1 - i,
    {
        if matches_at(&a, &b, i) {
            return true;
        }
        if i == last {
            assert forall|k: int| !occurs_at(s@, p@, k) by {
                if occurs_at(s@, p@, k) {
                    assert(k <= last);
                }
            }
            return false;
        }
        i = i + 1;
    }
    false
}

/// Two strings one after the other.
pub fn cat2(a: &str, b: &str) -> (r: String)
    ensures
        r@ == a@ + b@,
{
    let mut s = a.to_owned();
    s.append(b);
    s
}

/// Three strings one after the other.
pub fn cat3(a: &str, b: &str, c: &str) -> (r: String)
    ensures
        r@ == a@ + b@ + c@,
{
    let mut s = a.to_owned();
    s.append(b);
    s.append(c);
    s
}

/// Four strings one after the other.
pub fn cat4(a: &str, b: &str, c: &str, d: &str) -> (r: String)
    ensures
        r@ == a@ + b@ + c@ + d@,
{
    let mut s = a.to_owned();
    s.append(b);
    s.append(c);
    s.append(d);
    s
}

/// Five strings one after the other.
pub fn cat5(a: &str, b: &str, c: &str, d: &str, e: &str) -> (r: String)
    ensures
        r@ == a@ + b@ + c@ + d@ + e@,
{
    let mut s = a.to_owned();
    s.append(b);
    s.append(c);
    s.append(d);
    s.append(e);
    s
}

/// Seven strings one after the other.
pub fn cat7(a: &str, b: &str, c: &str, d: &str, e: &str, f: &str, g: &str) -> (r: String)
    ensures
        r@ == a@ + b@ + c@ + d@ + e@ + f@ + g@,
{
    let mut s = a.to_owned();
    s.append(b);
    s.append(c);
    s.append(d);
    s.append(e);
    s.append(f);
    s.append(g);
    s
}

/// The character of a decimal digit.
pub open spec fn digit_char(d: nat) -> char {
    if d == 0 { '0' } else if d == 1 { '1' } else if d == 2 { '2' } else if d == 3 { '3' } else if d == 4 { '4' }
    else if d == 5 { '5' } else if d == 6 { '6' } else if d == 7 { '7' } else if d == 8 { '8' } else { '9' }
}

/// The decimal text of a number.
pub open spec fn decimal_text(n: nat) -> Seq<char>
    decreases n,
{
    if n < 10 {
        seq![digit_char(n)]
    } else {
        decimal_text(n / 10).push(digit_char(n % 10))
    }
}

pub(crate) fn digit(d: u64) -> (r: char)
    requires
        d < 10,
    ensures
        r == digit_char(d as nat),
{
    if d == 0 { '0' } else if d == 1 { '1' } else if d == 2 { '2' } else if d == 3 { '3' } else if d == 4 { '4' }
    else if d == 5 { '5' } else if d == 6 { '6' } else if d == 7 { '7' } else if d == 8 { '8' } else { '9' }
}

/// The decimal text of a number.
pub fn decimal(n: u64) -> (r: String)
    ensures
        r@ == decimal_text(n as nat),
    decreases n,
{
    if n < 10 {
        let mut s = String::new();
        s.push(digit(n));
        assert(s@ =~= seq![digit_char(n as nat)]);
        s
    } else {
        let mut s = decimal(n / 10);
        s.push(digit(n % 10));
        s
    }
}

/// The upper-case form of a text, by the Unicode tables of the standard
/// library.
pub uninterp spec fn uppercase(s: Seq<char>) -> Seq<char>;

/// The lower-case form of a text, by the Unicode tables of the standard
/// library.
pub uninterp spec fn lowercase(s: Seq<char>) -> Seq<char>;

/// `str::to_uppercase`.
#[verifier::external_body]
pub(crate) fn to_upper(s: &str) -> (r: String)
    ensures
        r@ == uppercase(s@),
{
    s.to_uppercase()
}

/// Whether a text comes from another by writing underscores for some of its
/// characters.
pub open spec fn is_underscored(t: Seq<char>, s: Seq<char>) -> bool {
    t.len() == s.len() && forall|i: int| 0 <= i < t.len() ==> #[trigger] t[i] == s[i] || t[i] == '_'
}

/// `str::to_lowercase`. The result holds no upper-case letter of ASCII, nor any
/// other character with another lower-case form: to lower it again changes
/// nothing, also with underscores in place of some of its characters.
#[verifier::external_body]
pub(crate) fn to_lower(s: &str) -> (r: String)
    ensures
        r@ == lowercase(s@),
        forall|i: int| 0 <= i < r@.len() ==> !('A' <= #[trigger] r@[i] && r@[i] <= 'Z'),
        forall|t: Seq<char>| #[trigger] is_underscored(t, r@) ==> lowercase(t) == t,
{
    s.to_lowercase()
}

/// Whether a character has the Unicode property `White_Space`.
pub open spec fn white_space(c: char) -> bool {
    let n = c as int;
    ||| 0x9 <= n <= 0xd
    ||| n == 0x20
    ||| n == 0x85
    ||| n == 0xa0
    ||| n == 0x1680
    ||| 0x2000 <= n <= 0x200a
    ||| 0x2028 <= n <= 0x2029
    ||| n == 0x202f
    ||| n == 0x205f
    ||| n == 0x3000
}

/// Whether a character has the Unicode property `White_Space`.
pub fn is_white_space(c: char) -> (r: bool)
    ensures
        r == white_space(c),
{
    let n: u32 = c as u32;
    (0x9 <= n && n <= 0xd) || n == 0x20 || n == 0x85 || n == 0xa0 || n == 0x1680 || (0x2000 <= n && n <= 0x200a) || n
        == 0x2028 || n == 0x2029 || n == 0x202f || n == 0x205f || n == 0x3000
}

/// A text without the white space at its start.
pub open spec fn without_leading_space(s: Seq<char>) -> Seq<char>
    decreases s.len(),
{
    if s.len() > 0 && white_space(s[0]) {
        without_leading_space(s.skip(1))
    } else {
        s
    }
}

/// A text without the white space at its end.
pub open spec fn without_trailing_space(s: Seq<char>) -> Seq<char>
    decreases s.len(),
{
    if s.len() > 0 && white_space(s.last()) {
        without_trailing_space(s.drop_last())
    } else {
        s
    }
}

/// A text without the white space around it.
pub open spec fn trimmed(s: Seq<char>) -> Seq<char> {
    without_trailing_space(without_leading_space(s))
}

/// A text without the white space around it.
pub fn trim(s: &str) -> (r: String)
    ensures
        r@ == trimmed(s@),
{
    let c = to_chars(s);
    let mut a: usize = 0;
    assert(c@.skip(0) =~= s@);
    while a < c.len() && is_white_space(c[a])
        invariant
            a <= c.len(),
            c@ == s@,
            without_leading_space(s@) == without_leading_space(c@.skip(a as int)),
        decreases c.len() - a,
    {
        assert(c@.skip(a as int).skip(1) =~= c@.skip(a + 1));
        a = a + 1;
    }
    let ghost mid = c@.skip(a as int);
    assert(without_leading_space(s@) == mid);
    let mut b: usize = c.len();
    assert(c@.subrange(a as int, b as int) =~= mid);
    while b > a && is_white_space(c[b - 1])
        invariant
            a <= b <= c.len(),
            without_trailing_space(mid) == without_trailing_space(c@.subrange(a as int, b as int)),
        decreases b - a,
    {
        assert(c@.subrange(a as int, b as int).drop_last() =~= c@.subrange(a as int, b - 1));
        b = b - 1;
    }
    let mut out = String::new();
    let mut i: usize = a;
    while i < b
        invariant
            a <= i <= b <= c.len(),
            out@ == c@.subrange(a as int, i as int),
        decreases b - i,
    {
        out.push(c[i]);
        i = i + 1;
        assert(out@ =~= c@.subrange(a as int, i as int));
    }
    out
}

/// Whether a text comes before another by its characters.
pub open spec fn text_before(a: Seq<char>, b: Seq<char>) -> bool
    decreases a.len(),
{
    if b.len() == 0 {
        false
    } else if a.len() == 0 {
        true
    } else if a[0] != b[0] {
        (a[0] as int) < (b[0] as int)
    } else {
        text_before(a.skip(1), b.skip(1))
    }
}

/// The order of texts is strict and total.
pub proof fn text_order_is_total(a: Seq<char>, b: Seq<char>)
    ensures
        !text_before(a, a),
        text_before(a, b) ==> !text_before(b, a),
        a == b || text_before(a, b) || text_before(b, a),
    decreases a.len(),
{
    if a.len() > 0 {
        text_order_is_total(a.skip(1), a.skip(1));
        if b.len() > 0 && a[0] == b[0] {
            text_order_is_total(a.skip(1), b.skip(1));
            if a.skip(1) == b.skip(1) {
                assert forall|i: int| 0 <= i < a.len() implies a[i] == b[i] by {
                    if i > 0 {
                        assert(a.skip(1)[i - 1] == b.skip(1)[i - 1]);
                    }
                }
                assert(a.len() == a.skip(1).len() + 1 && b.len() == b.skip(1).len() + 1);
                assert(a =~= b);
            }
        }
    } else if b.len() == 0 {
        assert(a =~= b);
    }
}

/// The order of texts is transitive.
pub proof fn text_order_is_transitive(a: Seq<char>, b: Seq<char>, c: Seq<char>)
    requires
        text_before(a, b),
        text_before(b, c),
    ensures
        text_before(a, c),
    decreases a.len(),
{
    if a.len() > 0 && a[0] == b[0] && b[0] == c[0] {
        text_order_is_transitive(a.skip(1), b.skip(1), c.skip(1));
    }
}

/// Whether a text comes before another by its characters.
pub fn comes_before(a: &str, b: &str) -> (r: bool)
    ensures
        r == text_before(a@, b@),
{
    let x = to_chars(a);
    let y = to_chars(b);
    let mut i: usize = 0;
    assert(x@.skip(0) =~= a@);
    assert(y@.skip(0) =~= b@);
    while i < x.len() && i < y.len()
        invariant
            i <= x.len(),
            i <= y.len(),
            text_before(a@, b@) == text_before(x@.skip(i as int), y@.skip(i as int)),
        decreases x.len() - i,
    {
        assert(x@.skip(i as int)[0] == x@[i as int]);
        assert(y@.skip(i as int)[0] == y@[i as int]);
        if x[i] != y[i] {
            return x[i] < y[i];
        }
        assert(x@.skip(i as int).skip(1) =~= x@.skip(i + 1));
        assert(y@.skip(i as int).skip(1) =~= y@.skip(i + 1));
        i = i + 1;
    }
    i < y.len()
}

/// The number that decimal digits stand for, read from the left.
pub open spec fn number_of(s: Seq<char>) -> int
    decreases s.len(),
{
    if s.len() == 0 {
        0
    } else {
        10 * number_of(s.drop_last()) + (s.last() as int - '0' as int)
    }
}

/// Whether a text consists of decimal digits.
pub open spec fn all_digits(s: Seq<char>) -> bool {
    forall|i: int| 0 <= i < s.len() ==> '0' <= #[trigger] s[i] && s[i] <= '9'
}

/// The text of a number consists of digits, without zeros in front, and stands
/// for the number.
pub proof fn a_number_reads_back(n: nat)
    ensures
        number_of(decimal_text(n)) == n,
        all_digits(decimal_text(n)),
        decimal_text(n).len() > 0,
        n > 0 ==> decimal_text(n)[0] != '0',
        n == 0 ==> decimal_text(n) == seq!['0'],
    decreases n,
{
    if n >= 10 {
        a_number_reads_back(n / 10);
        assert(decimal_text(n).drop_last() =~= decimal_text(n / 10));
    } else {
        assert(decimal_text(n).drop_last() =~= Seq::empty());
        assert(number_of(Seq::<char>::empty()) == 0);
    }
}

/// A text starts with another exactly where it is the other followed by something.
pub proof fn a_prefix_is_followed(s: Seq<char>, p: Seq<char>, rest: Seq<char>)
    ensures
        has_prefix(p + rest, p),
        has_prefix(s, p) <==> p.len() <= s.len() && s == p + s.skip(p.len() as int),
{
    assert((p + rest).subrange(0, p.len() as int) =~= p);
    if p.len() <= s.len() {
        assert(s =~= s.subrange(0, p.len() as int) + s.skip(p.len() as int));
        if s == p + s.skip(p.len() as int) {
            assert(s.subrange(0, p.len() as int) =~= p);
        }
    }
}

/// A text holds another exactly where the other stands between something before
/// and something after it.
pub proof fn a_part_stands_between(s: Seq<char>, p: Seq<char>, before: Seq<char>, after: Seq<char>)
    ensures
        has_infix(before + p + after, p),
        has_infix(s, p) ==> exists|a: Seq<char>, b: Seq<char>| s == #[trigger] (a + p + b),
{
    let all = before + p + after;
    assert(all.subrange(before.len() as int, (before.len() + p.len()) as int) =~= p);
    assert(occurs_at(all, p, before.len() as int));
    if has_infix(s, p) {
        let i = choose|i: int| occurs_at(s, p, i);
        let a = s.subrange(0, i);
        let b = s.skip(i + p.len());
        assert(s =~= a + p + b);
    }
}

/// What a part of a text holds, the text holds.
pub proof fn a_part_is_kept(s: Seq<char>, p: Seq<char>, before: Seq<char>, after: Seq<char>)
    requires
        has_infix(s, p),
    ensures
        has_infix(before + s, p),
        has_infix(s + after, p),
        has_infix(before + s + after, p),
{
    a_part_stands_between(s, p, before, after);
    let (a, b) = choose|a: Seq<char>, b: Seq<char>| s == #[trigger] (a + p + b);
    a_part_stands_between(before + s, p, before + a, b);
    assert(before + s =~= (before + a) + p + b);
    a_part_stands_between(s + after, p, a, b + after);
    assert(s + after =~= a + p + (b + after));
    a_part_stands_between(before + s + after, p, before + a, b + after);
    assert(before + s + after =~= (before + a) + p + (b + after));
}

/// Whether a text consists of white space.
pub open spec fn is_blank(s: Seq<char>) -> bool {
    forall|i: int| 0 <= i < s.len() ==> white_space(#[trigger] s[i])
}

proof fn lemma_leading_space(s: Seq<char>)
    ensures
        exists|lead: Seq<char>| is_blank(lead) && s == #[trigger] (lead + without_leading_space(s)),
        without_leading_space(s).len() > 0 ==> !white_space(without_leading_space(s)[0]),
    decreases s.len(),
{
    if s.len() > 0 && white_space(s[0]) {
        lemma_leading_space(s.skip(1));
        let lead = choose|lead: Seq<char>| is_blank(lead) && s.skip(1) == #[trigger] (lead + without_leading_space(s.skip(1)));
        let all = seq![s[0]] + lead;
        assert(s =~= seq![s[0]] + s.skip(1));
        assert(s =~= all + without_leading_space(s));
        assert(is_blank(all));
    } else {
        assert(s =~= Seq::<char>::empty() + without_leading_space(s));
        assert(is_blank(Seq::<char>::empty()));
    }
}

proof fn lemma_trailing_space(s: Seq<char>)
    ensures
        exists|trail: Seq<char>| is_blank(trail) && s == #[trigger] (without_trailing_space(s) + trail),
        without_trailing_space(s).len() > 0 ==> !white_space(without_trailing_space(s).last()),
        without_trailing_space(s).len() > 0 ==> without_trailing_space(s)[0] == s[0],
    decreases s.len(),
{
    if s.len() > 0 && white_space(s.last()) {
        lemma_trailing_space(s.drop_last());
        let trail = choose|trail: Seq<char>|
            is_blank(trail) && s.drop_last() == #[trigger] (without_trailing_space(s.drop_last()) + trail);
        let all = trail.push(s.last());
        assert(s =~= s.drop_last().push(s.last()));
        assert(s =~= without_trailing_space(s) + all);
        assert(is_blank(all));
    } else {
        assert(s =~= without_trailing_space(s) + Seq::<char>::empty());
        assert(is_blank(Seq::<char>::empty()));
    }
}

/// A trimmed text is the text without white space before and after: what is left
/// out is white space, and what is left neither starts nor ends with any.
pub proof fn trimming_takes_the_ends(s: Seq<char>)
    ensures
        exists|lead: Seq<char>, trail: Seq<char>|
            is_blank(lead) && is_blank(trail) && s == #[trigger] (lead + trimmed(s) + trail),
        trimmed(s).len() > 0 ==> !white_space(trimmed(s)[0]) && !white_space(trimmed(s).last()),
{
    let t = without_leading_space(s);
    lemma_leading_space(s);
    lemma_trailing_space(t);
    let lead = choose|lead: Seq<char>| is_blank(lead) && s == #[trigger] (lead + t);
    let trail = choose|trail: Seq<char>| is_blank(trail) && t == #[trigger] (trimmed(s) + trail);
    assert(s =~= lead + trimmed(s) + trail);
}

/// Texts are ordered by the first character in which they differ; the start of a
/// text comes before the text.
pub proof fn the_first_difference_orders(start: Seq<char>, a: Seq<char>, b: Seq<char>)
    ensures
        a.len() > 0 && b.len() > 0 && a[0] != b[0] ==> (text_before(start + a, start + b) <==> (a[0] as int) < (
        b[0] as int)),
        b.len() > 0 ==> text_before(start, start + b),
    decreases start.len(),
{
    if start.len() > 0 {
        let rest = start.skip(1);
        assert((start + a).skip(1) =~= rest + a);
        assert((start + b).skip(1) =~= rest + b);
        the_first_difference_orders(rest, a, b);
    } else {
        assert(start + a =~= a);
        assert(start + b =~= b);
    }
}

} // verus!
