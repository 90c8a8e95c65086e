//! Parts-per-billion fractions. The arithmetic is that of `sp_arithmetic::Perbill`,
//! which this module calls; its results are stated here as formulas on integers.

use sp_arithmetic::PerThing;
use sp_arithmetic::Perbill;
use vstd::prelude::*;

verus! {

/// The number of parts that make one whole.
pub const BILLION: u32 = 1_000_000_000;

/// A fraction between zero and one, in parts per billion.
/// A `parts` above one billion stands for one whole.
#[derive(Clone, Copy, Debug, PartialEq, Eq, Structural)]
pub struct PerBillion {
    pub parts: u32,
}

/// `parts`, held to at most one billion.
pub open spec fn clamped(parts: u32) -> u32 {
    if parts > BILLION {
        BILLION
    } else {
        parts
    }
}

/// The parts per billion of `p / q`, rounded down; one whole where `q` is zero or
/// `p` exceeds `q`.
pub open spec fn rational_parts(p: u32, q: u32) -> u32 {
    if q == 0 || p > q {
        BILLION
    } else {
        ((BILLION as int * p as int) / (q as int)) as u32
    }
}

/// `x` multiplied by `parts` billionths, rounded to the nearest integer; a tie rounds down.
pub open spec fn scaled(parts: u32, x: u128) -> int {
    let product = clamped(parts) as int * x as int;
    product / (BILLION as int) + if product % (BILLION as int) > (BILLION as int) / 2 {
        1int
    } else {
        0int
    }
}

/// A fraction of a number is at most the number and not negative.
pub proof fn lemma_scaled_bounds(parts: u32, x: u128)
    ensures
        0 <= scaled(parts, x) <= x,
{
    let c = clamped(parts) as int;
    let b = BILLION as int;
    let product = c * x as int;
    assert(0 <= product <= b * x) by (nonlinear_arith)
        requires
            0 <= c <= b,
            product == c * x,
            0 <= x,
    ;
    if c == b {
        assert(product == x * b) by (nonlinear_arith)
            requires
                product == c * x,
                c == b,
        ;
        assert(product % b == 0 && product / b == x) by (nonlinear_arith)
            requires
                product == x * b,
                b > 0,
        ;
    } else {
        assert(product / b + 1 <= x || product == 0) by (nonlinear_arith)
            requires
                0 <= c < b,
                product == c * x,
                0 <= x,
                b == 1_000_000_000,
        {
            if x > 0 {
                assert(product <= (b - 1) * x);
                assert(product / b <= ((b - 1) * x) / b);
                assert((b - 1) * x == b * x - x);
                assert(((b - 1) * x) / b < x);
            }
        }
        assert(product / b >= 0) by (nonlinear_arith)
            requires
                product >= 0,
                b > 0,
        ;
    }
}

/// Calls `Perbill::from_rational` on two `u32` and returns the parts of the result.
/// The fraction is rounded down; where `q` is zero or `p` exceeds `q` the result is
/// one whole.
#[verifier::external_body]
pub(crate) fn perbill_from_rational(p: u32, q: u32) -> (parts: u32)
    ensures
        parts == rational_parts(p, q),
{
    Perbill::from_rational(p, q).deconstruct()
}

/// Calls `Perbill::left_from_one`: what is left of one whole after the fraction.
/// `Perbill::from_parts` holds `parts` to one billion first.
#[verifier::external_body]
pub(crate) fn perbill_left_from_one(parts: u32) -> (left: u32)
    ensures
        left == BILLION - clamped(parts),
{
    Perbill::from_parts(parts).left_from_one().deconstruct()
}

/// Calls `Perbill`'s multiplication with a `u128`: the product is rounded to the nearest
/// integer, a tie rounding down. `Perbill::from_parts` holds `parts` to one billion first.
#[verifier::external_body]
pub(crate) fn perbill_mul(parts: u32, x: u128) -> (r: u128)
    ensures
        r == scaled(parts, x),
{
    Perbill::from_parts(parts) * x
}

impl PerBillion {
    /// The fraction with the given parts, held to one whole.
    pub fn from_parts(parts: u32) -> (r: PerBillion)
        ensures
            r.parts == clamped(parts),
    {
        if parts > BILLION {
            PerBillion { parts: BILLION }
        } else {
            PerBillion { parts }
        }
    }

    /// The fraction `p / q`, rounded down to a billionth; one whole where `q` is zero
    /// or `p` exceeds `q`.
    pub fn from_rational(p: u32, q: u32) -> (r: PerBillion)
        ensures
            r.parts == rational_parts(p, q),
    {
        PerBillion { parts: perbill_from_rational(p, q) }
    }

    /// Zero.
    pub fn zero() -> (r: PerBillion)
        ensures
            r.parts == 0,
    {
        PerBillion { parts: 0 }
    }

    /// What is left of one whole.
    pub fn left_from_one(self) -> (r: PerBillion)
        ensures
            r.parts == BILLION - clamped(self.parts),
    {
        PerBillion { parts: perbill_left_from_one(self.parts) }
    }

    /// This fraction of `x`, rounded to the nearest integer; a tie rounds down.
    pub fn mul(self, x: u128) -> (r: u128)
        ensures
            r == scaled(self.parts, x),
            r <= x,
    {
        proof {
            lemma_scaled_bounds(self.parts, x);
        }
        perbill_mul(self.parts, x)
    }
}

} // verus!
