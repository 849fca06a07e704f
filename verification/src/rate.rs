//! Fractions compared without rounding.
use vstd::prelude::*;

verus! {

/// A fraction.
#[derive(Debug, Clone, Copy, PartialEq, Eq, Structural)]
pub struct Rate {
    pub num: u64,
    pub den: u64,
}

/// Whether `part` out of `whole` is at least the fraction.
pub open spec fn at_least(part: int, whole: int, rate: Rate) -> bool {
    part * rate.den >= rate.num * whole
}

/// Whether `part` out of `whole` is below half the fraction.
pub open spec fn below_half(part: int, whole: int, rate: Rate) -> bool {
    2 * (part * rate.den) < rate.num * whole
}

impl Rate {
    /// Whether `part` out of `whole` is at least this fraction.
    pub fn reached_by(&self, part: u64, whole: u64) -> (r: bool)
        ensures
            r == at_least(part as int, whole as int, *self),
    {
        proof {
            lemma_product_fits(part, self.den);
            lemma_product_fits(self.num, whole);
        }
        (part as u128) * (self.den as u128) >= (self.num as u128) * (whole as u128)
    }

    /// Whether `part` out of `whole` is below half this fraction.
    pub fn half_exceeds(&self, part: u64, whole: u64) -> (r: bool)
        ensures
            r == below_half(part as int, whole as int, *self),
    {
        proof {
            lemma_product_fits(part, self.den);
            lemma_product_fits(self.num, whole);
        }
        let a: u128 = (part as u128) * (self.den as u128);
        let b: u128 = (self.num as u128) * (whole as u128);
        a < b && a < b - a
    }
}

/// A product of two 64-bit numbers fits in 128 bits.
proof fn lemma_product_fits(a: u64, b: u64)
    ensures
        0 <= a * b <= 0xffff_ffff_ffff_ffff * 0xffff_ffff_ffff_ffff,
{
    assert(0 <= a * b <= 0xffff_ffff_ffff_ffff * 0xffff_ffff_ffff_ffff) by (nonlinear_arith)
        requires
            0 <= a <= 0xffff_ffff_ffff_ffff,
            0 <= b <= 0xffff_ffff_ffff_ffff,
    ;
}

/// A fraction is reached by as many as it asks for and by more, and not by fewer.
pub proof fn a_rate_is_a_bound(part: int, whole: int, rate: Rate)
    requires
        rate.den > 0,
        whole > 0,
    ensures
        at_least(part, whole, rate) <==> part * rate.den >= whole * rate.num,
        below_half(part, whole, rate) <==> 2 * part * rate.den < whole * rate.num,
        rate.num == 0 && part >= 0 ==> at_least(part, whole, rate),
        rate.num == rate.den ==> (at_least(part, whole, rate) <==> part >= whole),
        at_least(part, whole, rate) ==> at_least(part + 1, whole, rate),
        below_half(part, whole, rate) && part >= 0 ==> !at_least(part, whole, rate),
{
    assert(rate.num * whole == whole * rate.num) by (nonlinear_arith);
    assert(2 * (part * rate.den) == 2 * part * rate.den) by (nonlinear_arith);
    assert((part + 1) * rate.den == part * rate.den + rate.den) by (nonlinear_arith);
    assert(part >= 0 ==> part * rate.den >= 0) by (nonlinear_arith)
        requires
            rate.den > 0,
    ;
    assert(rate.num == 0 ==> whole * rate.num == 0) by (nonlinear_arith);
    assert(rate.num == rate.den ==> (part * rate.den >= whole * rate.num <==> part >= whole)) by (nonlinear_arith)
        requires
            rate.den > 0,
    ;
}

} // verus!
