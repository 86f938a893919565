//! Exact fixed-point coordinate values.
//!
//! Every coordinate, angle and axis component in an instrument description is
//! held as a whole number of millionths of a unit, so that translations, grid
//! synthesis and interpolation are exact integer arithmetic.

use vstd::prelude::*;

verus! {

/// Millionths of a unit per unit.
pub const MICROS_PER_UNIT: i64 = 1_000_000;

/// A signed value in millionths of a unit.
#[derive(Clone, Copy, PartialEq, Eq, Structural, Debug)]
pub struct Fixed {
    pub micros: i64,
}

/// Linear interpolation between `a` and `b` at fraction `num / den`,
/// with the scaled difference truncated toward zero.
pub open spec fn lerp_micros(a: int, b: int, num: int, den: int) -> int {
    let d = b - a;
    if d >= 0 {
        a + (d * num) / den
    } else {
        a - (((-d) * num) / den)
    }
}

impl Fixed {
    pub fn zero() -> (r: Fixed)
        ensures
            r.micros == 0,
    {
        Fixed { micros: 0 }
    }

    pub fn one() -> (r: Fixed)
        ensures
            r.micros == MICROS_PER_UNIT,
    {
        Fixed { micros: MICROS_PER_UNIT }
    }

    /// Exact sum; `None` when the sum does not fit.
    pub fn checked_add(self, other: Fixed) -> (r: Option<Fixed>)
        ensures
            r is Some <==> i64::MIN <= self.micros + other.micros <= i64::MAX,
            r matches Some(f) ==> f.micros == self.micros + other.micros,
    {
        match self.micros.checked_add(other.micros) {
            Some(m) => Some(Fixed { micros: m }),
            None => None,
        }
    }

    /// Exact product with a small count; `None` when it does not fit.
    pub fn checked_mul_u32(self, k: u32) -> (r: Option<Fixed>)
        ensures
            r is Some <==> i64::MIN <= self.micros * k <= i64::MAX,
            r matches Some(f) ==> f.micros == self.micros * k,
    {
        match self.micros.checked_mul(k as i64) {
            Some(m) => Some(Fixed { micros: m }),
            None => None,
        }
    }
}

/// Interpolates between `a` and `b` at fraction `num / den`.
/// The result always lies between the two end values, so it cannot overflow;
/// `num == 0` returns `a` exactly and `num == den` returns `b` exactly.
pub fn lerp(a: Fixed, b: Fixed, num: u32, den: u32) -> (r: Fixed)
    requires
        0 < den,
        num <= den,
    ensures
        r.micros == lerp_micros(a.micros as int, b.micros as int, num as int, den as int),
        num == 0 ==> r == a,
        num == den ==> r == b,
{
    proof {
        lemma_lerp_bounds(a.micros as int, b.micros as int, num as int, den as int);
    }
    let d: i128 = b.micros as i128 - a.micros as i128;
    if d >= 0 {
        proof {
            vstd::arithmetic::mul::lemma_mul_upper_bound(
                d as int,
                u64::MAX as int,
                num as int,
                u32::MAX as int,
            );
        }
        let q: u128 = (d as u128 * num as u128) / den as u128;
        let m: i128 = a.micros as i128 + q as i128;
        Fixed { micros: m as i64 }
    } else {
        let neg: i128 = -d;
        proof {
            vstd::arithmetic::mul::lemma_mul_upper_bound(
                neg as int,
                u64::MAX as int,
                num as int,
                u32::MAX as int,
            );
        }
        let q: u128 = (neg as u128 * num as u128) / den as u128;
        let m: i128 = a.micros as i128 - q as i128;
        Fixed { micros: m as i64 }
    }
}

/// The interpolated value lies between the two end values, and the end
/// fractions reproduce them exactly.
pub proof fn lemma_lerp_bounds(a: int, b: int, num: int, den: int)
    requires
        0 < den,
        0 <= num <= den,
    ensures
        a <= b ==> a <= lerp_micros(a, b, num, den) <= b,
        a > b ==> b <= lerp_micros(a, b, num, den) <= a,
        num == 0 ==> lerp_micros(a, b, num, den) == a,
        num == den ==> lerp_micros(a, b, num, den) == b,
{
    let d = if b >= a {
        b - a
    } else {
        a - b
    };
    vstd::arithmetic::mul::lemma_mul_inequality(num, den, d);
    vstd::arithmetic::div_mod::lemma_div_is_ordered(0, d * num, den);
    vstd::arithmetic::div_mod::lemma_div_is_ordered(d * num, d * den, den);
    vstd::arithmetic::div_mod::lemma_div_by_multiple(d, den);
    assert(d * num <= d * den) by {
        vstd::arithmetic::mul::lemma_mul_inequality(num, den, d);
        vstd::arithmetic::mul::lemma_mul_is_commutative(d, num);
        vstd::arithmetic::mul::lemma_mul_is_commutative(d, den);
    }
    if num == 0 {
        assert(d * 0 == 0);
    }
    if num == den {
        assert((d * den) / den == d);
    }
}

} // verus!
