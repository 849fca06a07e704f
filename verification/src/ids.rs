//! Random identifiers and numbers.
use vstd::prelude::*;
use vstd::string::*;
use crate::text::{cat2, to_chars};
use crate::digest;
use crate::text;

verus! {

/// Whether a hyphen stands at this position of an identifier.
pub open spec fn is_hyphen_position(i: int) -> bool {
    i == 8 || i == 13 || i == 18 || i == 23
}

/// Whether a text has the form of an identifier: 36 characters, hyphens after
/// the first 8 digits and after each 4 of the next 12, and lower-case
/// hexadecimal digits elsewhere.
pub open spec fn is_uuid_text(s: Seq<char>) -> bool {
    &&& s.len() == 36
    &&& forall|i: int| 0 <= i < 36 ==> if is_hyphen_position(i) {
        #[trigger] s[i] == '-'
    } else {
        digest::is_hex_digit(s[i])
    }
}

/// A random identifier: `uuid::Uuid::new_v4`, in the hyphenated form that its
/// `Display` writes. Which one comes out depends on chance.
#[verifier::external_body]
fn new_uuid() -> (r: String)
    ensures
        is_uuid_text(r@),
{
    uuid::Uuid::new_v4().to_string()
}

/// Whether an identifier consists of a prefix and a random part.
pub open spec fn is_random_id(id: Seq<char>, prefix: Seq<char>) -> bool {
    &&& id.len() == prefix.len() + 36
    &&& text::has_prefix(id, prefix)
    &&& is_uuid_text(id.subrange(prefix.len() as int, id.len() as int))
}

/// A new identifier with this prefix.
pub fn random_id(prefix: &str) -> (r: String)
    ensures
        is_random_id(r@, prefix@),
{
    let u = new_uuid();
    let r = cat2(prefix, u.as_str());
    assert(r@.subrange(0, prefix@.len() as int) =~= prefix@);
    assert(r@.subrange(prefix@.len() as int, r@.len() as int) =~= u@);
    r
}

/// Whether a text consists of so many lower-case hexadecimal digits.
pub open spec fn is_hex(s: Seq<char>, n: int) -> bool {
    s.len() == n && forall|i: int| 0 <= i < s.len() ==> digest::is_hex_digit(#[trigger] s[i])
}

/// The 32 digits of an identifier, without the hyphens.
pub open spec fn plain_digits(id: Seq<char>) -> Seq<char> {
    id.subrange(0, 8) + id.subrange(9, 13) + id.subrange(14, 18) + id.subrange(19, 23) + id.subrange(24, 36)
}

fn append_digits(out: &mut Vec<char>, chars: &Vec<char>, from: usize, to: usize)
    requires
        from <= to <= chars.len(),
    ensures
        final(out)@ == old(out)@ + chars@.subrange(from as int, to as int),
{
    let mut i: usize = from;
    let ghost start = out@;
    assert(start =~= start + chars@.subrange(from as int, from as int));
    while i < to
        invariant
            from <= i <= to,
            to <= chars.len(),
            out@ == start + chars@.subrange(from as int, i as int),
        decreases to - i,
    {
        out.push(chars[i]);
        i = i + 1;
        assert(out@ =~= start + chars@.subrange(from as int, i as int));
    }
}

/// The 32 digits of an identifier.
fn digits_of(id: &str) -> (r: Vec<char>)
    requires
        is_uuid_text(id@),
    ensures
        r@ == plain_digits(id@),
        is_hex(r@, 32),
{
    let chars = to_chars(id);
    let mut out: Vec<char> = Vec::new();
    append_digits(&mut out, &chars, 0, 8);
    append_digits(&mut out, &chars, 9, 13);
    append_digits(&mut out, &chars, 14, 18);
    append_digits(&mut out, &chars, 19, 23);
    append_digits(&mut out, &chars, 24, 36);
    assert(out@ =~= plain_digits(id@));
    out
}

/// The last digits of an identifier, so many of them.
fn last_digits(id: &str, n: usize) -> (r: String)
    requires
        is_uuid_text(id@),
        n <= 32,
    ensures
        r@ == plain_digits(id@).subrange(32 - n, 32),
        is_hex(r@, n as int),
{
    let digits = digits_of(id);
    let mut out = String::new();
    let mut i: usize = 32 - n;
    while i < 32
        invariant
            32 - n <= i <= 32,
            n <= 32,
            is_hex(digits@, 32),
            out@ == digits@.subrange(32 - n, i as int),
        decreases 32 - i,
    {
        out.push(digits[i]);
        i = i + 1;
        assert(out@ =~= digits@.subrange(32 - n, i as int));
    }
    out
}

/// The digits of an identifier as one text.
pub fn simple_form(id: &str) -> (r: String)
    requires
        is_uuid_text(id@),
    ensures
        r@ == plain_digits(id@),
        is_hex(r@, 32),
{
    let r = last_digits(id, 32);
    assert(r@ =~= plain_digits(id@));
    r
}

/// The last 16 digits of an identifier: its lower 64 bits.
pub fn span_form(id: &str) -> (r: String)
    requires
        is_uuid_text(id@),
    ensures
        r@ == plain_digits(id@).subrange(16, 32),
        is_hex(r@, 16),
{
    last_digits(id, 16)
}

/// A random text of 32 hexadecimal digits: those of a random identifier.
pub fn random_simple_id() -> (r: String)
    ensures
        is_hex(r@, 32),
        exists|id: Seq<char>| is_uuid_text(id) && r@ == #[trigger] plain_digits(id),
{
    let id = new_uuid();
    simple_form(id.as_str())
}

/// A random text of 16 hexadecimal digits: the last of a random identifier.
pub fn random_span_id() -> (r: String)
    ensures
        is_hex(r@, 16),
        exists|id: Seq<char>| is_uuid_text(id) && r@ == (#[trigger] plain_digits(id)).subrange(16, 32),
{
    let id = new_uuid();
    span_form(id.as_str())
}

/// The value of a lower-case hexadecimal digit; any other character counts like
/// the last of them.
pub open spec fn hex_digit_value(c: char) -> int {
    if '0' <= c && c <= '9' {
        c as int - '0' as int
    } else if 'a' <= c && c <= 'f' {
        10 + c as int - 'a' as int
    } else {
        15
    }
}

/// The number that hexadecimal digits stand for, the highest digit first.
pub open spec fn hex_number(s: Seq<char>) -> int
    decreases s.len(),
{
    if s.len() == 0 {
        0
    } else {
        hex_number(s.drop_last()) * 16 + hex_digit_value(s.last())
    }
}

/// The highest 48 bits of an identifier.
pub open spec fn draw_value(id: Seq<char>) -> int {
    hex_number(plain_digits(id).subrange(0, 12))
}

fn hex_value(c: char) -> (r: u64)
    ensures
        r == hex_digit_value(c),
        r < 16,
{
    if c == '0' {
        0
    } else if c == '1' {
        1
    } else if c == '2' {
        2
    } else if c == '3' {
        3
    } else if c == '4' {
        4
    } else if c == '5' {
        5
    } else if c == '6' {
        6
    } else if c == '7' {
        7
    } else if c == '8' {
        8
    } else if c == '9' {
        9
    } else if c == 'a' {
        10
    } else if c == 'b' {
        11
    } else if c == 'c' {
        12
    } else if c == 'd' {
        13
    } else if c == 'e' {
        14
    } else {
        15
    }
}

/// One more than the largest random number.
pub const DRAW_LIMIT: u64 = 0x1_0000_0000_0000;

/// The highest 48 bits of an identifier: its first 12 digits.
pub fn draw_of(id: &str) -> (r: u64)
    requires
        is_uuid_text(id@),
    ensures
        r == draw_value(id@),
        r < DRAW_LIMIT,
{
    let digits = digits_of(id);
    let mut n: u64 = 0;
    let mut i: usize = 0;
    let ghost mut bound: int = 1;
    proof {
        lemma_powers_of_16(0);
    }
    assert(digits@.subrange(0, 0) =~= Seq::empty());
    while i < 12
        invariant
            i <= 12,
            digits@.len() == 32,
            n == hex_number(digits@.subrange(0, i as int)),
            n < bound,
            bound == vstd::arithmetic::power::pow(16, i as nat),
            bound <= 0x1_0000_0000_0000,
        decreases 12 - i,
    {
        let ghost part = digits@.subrange(0, i + 1);
        assert(part.drop_last() =~= digits@.subrange(0, i as int));
        assert(part.last() == digits@[i as int]);
        n = n * 16 + hex_value(digits[i]);
        i = i + 1;
        proof {
            bound = bound * 16;
            lemma_powers_of_16(i as nat);
        }
    }
    proof {
        lemma_powers_of_16(12);
    }
    n
}

/// A random number of 48 bits: the highest of a random identifier, which all
/// depend on chance.
pub fn random_draw() -> (r: u64)
    ensures
        r < DRAW_LIMIT,
        exists|id: Seq<char>| is_uuid_text(id) && r == #[trigger] draw_value(id),
{
    let id = new_uuid();
    draw_of(id.as_str())
}

proof fn lemma_powers_of_16(i: nat)
    requires
        i <= 12,
    ensures
        i == 0 ==> vstd::arithmetic::power::pow(16, i) == 1,
        i > 0 ==> vstd::arithmetic::power::pow(16, i) == 16 * vstd::arithmetic::power::pow(16, (i - 1) as nat),
        1 <= vstd::arithmetic::power::pow(16, i) <= 0x1_0000_0000_0000,
        i == 12 ==> vstd::arithmetic::power::pow(16, i) == 0x1_0000_0000_0000,
{
    reveal(vstd::arithmetic::power::pow);
    reveal_with_fuel(vstd::arithmetic::power::pow, 14);
}

/// The digits of an identifier stand in the order of the identifier: a digit
/// before the first hyphen keeps its place, one after it moves by the hyphens
/// before it.
pub proof fn digits_keep_their_order(id: Seq<char>, i: int)
    requires
        id.len() == 36,
        0 <= i < 36,
    ensures
        plain_digits(id).len() == 32,
        i < 8 ==> plain_digits(id)[i] == id[i],
        8 < i < 13 ==> plain_digits(id)[i - 1] == id[i],
        13 < i < 18 ==> plain_digits(id)[i - 2] == id[i],
        18 < i < 23 ==> plain_digits(id)[i - 3] == id[i],
        23 < i ==> plain_digits(id)[i - 4] == id[i],
{
}

/// The digits of a random identifier are 32 digits to the base 16, without
/// hyphens.
pub proof fn identifiers_have_32_digits(id: Seq<char>, i: int)
    requires
        is_uuid_text(id),
        0 <= i < 32,
    ensures
        plain_digits(id).len() == 32,
        digest::is_hex_digit(plain_digits(id)[i]),
{
    if i < 8 {
        assert(digest::is_hex_digit(id[i]));
    } else if i < 12 {
        assert(digest::is_hex_digit(id[i + 1]));
    } else if i < 16 {
        assert(digest::is_hex_digit(id[i + 2]));
    } else if i < 20 {
        assert(digest::is_hex_digit(id[i + 3]));
    } else {
        assert(digest::is_hex_digit(id[i + 4]));
    }
}

/// A number to the base 16 grows sixteenfold with every digit; the digits from `a`
/// count from ten.
pub proof fn digits_count_to_the_base_16(s: Seq<char>)
    ensures
        hex_number(s.push('0')) == 16 * hex_number(s),
        hex_number(s.push('7')) == 16 * hex_number(s) + 7,
        hex_number(s.push('9')) == 16 * hex_number(s) + 9,
        hex_number(s.push('a')) == 16 * hex_number(s) + 10,
        hex_number(s.push('c')) == 16 * hex_number(s) + 12,
        hex_number(s.push('f')) == 16 * hex_number(s) + 15,
        hex_number(Seq::empty()) == 0,
        forall|c: char| '0' <= c <= '9' ==> #[trigger] hex_digit_value(c) == c as int - '0' as int,
        forall|c: char| 'a' <= c <= 'f' ==> #[trigger] hex_digit_value(c) == 10 + c as int - 'a' as int,
{
    assert(s.push('0').drop_last() =~= s);
    assert(s.push('7').drop_last() =~= s);
    assert(s.push('9').drop_last() =~= s);
    assert(s.push('a').drop_last() =~= s);
    assert(s.push('c').drop_last() =~= s);
    assert(s.push('f').drop_last() =~= s);
}

/// A random identifier is its prefix followed by 36 characters: digits to the base
/// 16, with hyphens after 8, 12, 16 and 20 of them.
pub proof fn an_identifier_has_its_form(id: Seq<char>, prefix: Seq<char>)
    requires
        is_random_id(id, prefix),
    ensures
        id.len() == prefix.len() + 36,
        id == prefix + id.skip(prefix.len() as int),
        id.skip(prefix.len() as int)[8] == '-',
        id.skip(prefix.len() as int)[13] == '-',
        id.skip(prefix.len() as int)[18] == '-',
        id.skip(prefix.len() as int)[23] == '-',
        forall|i: int|
            0 <= i < 36 && i != 8 && i != 13 && i != 18 && i != 23 ==> digest::is_hex_digit(
                #[trigger] id.skip(prefix.len() as int)[i],
            ),
{
    text::a_prefix_is_followed(id, prefix, Seq::empty());
    let t = id.subrange(prefix.len() as int, id.len() as int);
    assert(t =~= id.skip(prefix.len() as int));
    assert(t[8] == '-' && t[13] == '-' && t[18] == '-' && t[23] == '-');
    assert forall|i: int| 0 <= i < 36 && i != 8 && i != 13 && i != 18 && i != 23 implies digest::is_hex_digit(
        #[trigger] id.skip(prefix.len() as int)[i],
    ) by {
        assert(!is_hyphen_position(i));
        assert(digest::is_hex_digit(t[i]));
    }
}

} // verus!
