//! Decimal numbers with digits after the point.
use vstd::prelude::*;
use vstd::string::*;
use crate::text::{cat2, decimal, digit};
use crate::text;

verus! {

/// The digits after the point, of which there are so many.
pub open spec fn fraction_digits(f: nat, n: nat) -> Seq<char>
    decreases n,
{
    if n == 0 {
        Seq::empty()
    } else {
        fraction_digits(f / 10, (n - 1) as nat).push(text::digit_char(f % 10))
    }
}

/// Digits without the zeros at their end.
pub open spec fn without_zeros(s: Seq<char>) -> Seq<char>
    decreases s.len(),
{
    if s.len() > 0 && s.last() == '0' {
        without_zeros(s.drop_last())
    } else {
        s
    }
}

/// A number with a fraction of so many digits, written without the zeros at
/// its end.
pub open spec fn fraction_text(whole: nat, part: nat, digits: nat) -> Seq<char> {
    if part == 0 {
        text::decimal_text(whole)
    } else {
        text::decimal_text(whole) + "."@ + without_zeros(fraction_digits(part, digits))
    }
}

fn write_digits(f: u64, n: u64) -> (r: Vec<char>)
    ensures
        r@ == fraction_digits(f as nat, n as nat),
    decreases n,
{
    if n == 0 {
        return Vec::new();
    }
    let mut v = write_digits(f / 10, n - 1);
    v.push(digit(f % 10));
    v
}

/// A number with a fraction of so many digits, written without the zeros at
/// its end.
pub fn fraction(whole: u64, part: u64, digits: u64) -> (r: String)
    ensures
        r@ == fraction_text(whole as nat, part as nat, digits as nat),
{
    let text = decimal(whole);
    if part == 0 {
        return text;
    }
    let mut tail = write_digits(part, digits);
    let ghost all = tail@;
    while tail.len() > 0 && tail[tail.len() - 1] == '0'
        invariant
            without_zeros(all) == without_zeros(tail@),
        decreases tail.len(),
    {
        let ghost prev = tail@;
        let _zero = tail.pop();
        assert(tail@ =~= prev.drop_last());
    }
    let mut out = cat2(text.as_str(), ".");
    let ghost start = out@;
    let mut i: usize = 0;
    assert(start + tail@.subrange(0, 0) =~= start);
    while i < tail.len()
        invariant
            i <= tail.len(),
            out@ == start + tail@.subrange(0, i as int),
        decreases tail.len() - i,
    {
        out.push(tail[i]);
        i = i + 1;
        assert(out@ =~= start + tail@.subrange(0, i as int));
    }
    assert(tail@.subrange(0, tail@.len() as int) =~= tail@);
    out
}

/// The decimal text of a number that may be negative.
pub open spec fn signed_text(n: int) -> Seq<char> {
    if n < 0 {
        "-"@ + text::decimal_text((-n) as nat)
    } else {
        text::decimal_text(n as nat)
    }
}

/// The decimal text of a number that may be negative.
pub fn signed(n: i128) -> (r: String)
    requires
        -0xffff_ffff_ffff_ffff <= n <= 0xffff_ffff_ffff_ffff,
    ensures
        r@ == signed_text(n as int),
{
    if n < 0 {
        cat2("-", decimal((-n) as u64).as_str())
    } else {
        decimal(n as u64)
    }
}

/// Ten times itself so often.
pub open spec fn power_of_ten(n: nat) -> nat
    decreases n,
{
    if n == 0 {
        1
    } else {
        10 * power_of_ten((n - 1) as nat)
    }
}

proof fn lemma_digits_read_back(f: nat, n: nat)
    requires
        f < power_of_ten(n),
    ensures
        fraction_digits(f, n).len() == n,
        text::all_digits(fraction_digits(f, n)),
        text::number_of(fraction_digits(f, n)) == f,
    decreases n,
{
    if n > 0 {
        lemma_digits_read_back(f / 10, (n - 1) as nat);
        assert(fraction_digits(f, n).drop_last() =~= fraction_digits(f / 10, (n - 1) as nat));
    }
}

proof fn lemma_zeros_scale(s: Seq<char>)
    ensures
        without_zeros(s).len() <= s.len(),
        text::number_of(s) == text::number_of(without_zeros(s)) * power_of_ten((s.len() - without_zeros(s).len()) as nat),
        without_zeros(s).len() > 0 ==> without_zeros(s).last() != '0',
        text::all_digits(s) ==> text::all_digits(without_zeros(s)),
    decreases s.len(),
{
    if s.len() > 0 && s.last() == '0' {
        let t = s.drop_last();
        lemma_zeros_scale(t);
        let k = (t.len() - without_zeros(t).len()) as nat;
        assert(s.len() - without_zeros(s).len() == k + 1);
        let x = text::number_of(without_zeros(t));
        assert(10 * (x * power_of_ten(k)) == x * (10 * power_of_ten(k))) by (nonlinear_arith);
    } else {
        let x = text::number_of(s);
        let one = power_of_ten(0);
        assert(x * one == x) by (nonlinear_arith)
            requires
                one == 1,
        ;
    }
}

/// A number with a fraction is written as its whole part, a point and digits that
/// stand for the fraction, with no zero at the end; without a fraction as its
/// whole part alone.
pub proof fn a_fraction_reads_back(whole: nat, part: nat, digits: nat)
    requires
        0 < part < power_of_ten(digits),
    ensures
        exists|d: Seq<char>|
            {
                &&& fraction_text(whole, part, digits) == #[trigger] (text::decimal_text(whole) + "."@ + d)
                &&& 0 < d.len() <= digits
                &&& text::all_digits(d)
                &&& d.last() != '0'
                &&& text::number_of(d) * power_of_ten((digits - d.len()) as nat) == part
            },
        fraction_text(whole, 0, digits) == text::decimal_text(whole),
{
    let all = fraction_digits(part, digits);
    let d = without_zeros(all);
    lemma_digits_read_back(part, digits);
    lemma_zeros_scale(all);
    if d.len() == 0 {
        assert(text::number_of(d) == 0);
        assert(0 * power_of_ten(all.len()) == 0) by (nonlinear_arith);
        assert(false);
    }
    assert(fraction_text(whole, part, digits) == text::decimal_text(whole) + "."@ + d);
}

/// A number below zero is written with a sign before its digits.
pub proof fn a_sign_stands_in_front(n: int)
    ensures
        n >= 0 ==> text::number_of(signed_text(n)) == n && text::all_digits(signed_text(n)),
        n < 0 ==> signed_text(n).len() > 1 && signed_text(n)[0] == '-' && text::number_of(signed_text(n).skip(1)) == -n,
{
    if n >= 0 {
        text::a_number_reads_back(n as nat);
    } else {
        text::a_number_reads_back((-n) as nat);
        reveal_strlit("-");
        assert(signed_text(n).skip(1) =~= text::decimal_text((-n) as nat));
    }
}

} // verus!
