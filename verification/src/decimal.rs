use vstd::arithmetic::div_mod::{
    lemma_div_is_ordered, lemma_div_multiples_vanish, lemma_fundamental_div_mod,
    lemma_fundamental_div_mod_converse, lemma_hoist_over_denominator, lemma_mod_bound,
};
use vstd::arithmetic::power::{
    lemma_pow0, lemma_pow1, lemma_pow_adds, lemma_pow_increases, lemma_pow_positive, pow,
};
use vstd::prelude::*;

use crate::error::ContractError;

verus! {

/// One atomic unit is `1 / FRACTIONAL` of a whole: eighteen fractional
/// decimal digits.
pub const FRACTIONAL: u128 = 1_000_000_000_000_000_000;

/// `2^64`, the split point for widening a product past the `u128` range.
const TWO64: u128 = 18_446_744_073_709_551_616;

/// A non-negative fixed-point number with eighteen decimal fractional
/// digits, stored as its count of atomic units. Reward indices are such
/// numbers: cumulative reward per staked unit.
///
/// The ratio arithmetic is exact over the whole `u128` range: intermediate
/// products are computed wide, and only a *result* outside the `u128` range
/// is a hard `Arithmetic` failure, never a silent wrap.
#[derive(Clone, Copy, Debug, PartialEq, Eq, Structural)]
pub struct Decimal {
    pub atomics: u128,
}

/// `numerator / denominator` as a `Decimal`, rounded down to an atomic unit:
/// `floor(numerator * FRACTIONAL / denominator)` atomics. Fails on a zero
/// denominator and when that quotient exceeds the `u128` range.
pub open spec fn spec_from_ratio(numerator: u128, denominator: u128) -> Result<
    Decimal,
    ContractError,
> {
    if denominator == 0 || numerator * FRACTIONAL / denominator as int > u128::MAX {
        Err(ContractError::Arithmetic)
    } else {
        Ok(Decimal { atomics: (numerator * FRACTIONAL / denominator as int) as u128 })
    }
}

/// `amount * d`, rounded down to a whole unit:
/// `floor(amount * d.atomics / FRACTIONAL)`. Fails when that quotient
/// exceeds the `u128` range.
pub open spec fn spec_mul_floor(amount: u128, d: Decimal) -> Result<u128, ContractError> {
    if amount * d.atomics / FRACTIONAL as int > u128::MAX {
        Err(ContractError::Arithmetic)
    } else {
        Ok((amount * d.atomics / FRACTIONAL as int) as u128)
    }
}

/// Sum of two decimals; fails when the sum exceeds the `u128` range.
pub open spec fn spec_dec_add(a: Decimal, b: Decimal) -> Result<Decimal, ContractError> {
    if a.atomics + b.atomics > u128::MAX {
        Err(ContractError::Arithmetic)
    } else {
        Ok(Decimal { atomics: (a.atomics + b.atomics) as u128 })
    }
}

/// `floor(r * FRACTIONAL / d)` for `r < d`, by long multiplication in base
/// ten: eighteen times, multiply the running remainder by ten against `d`
/// and carry the quotient digit out. The result is below `FRACTIONAL` and no
/// intermediate leaves the `u128` range.
fn mul_frac_div(r: u128, d: u128) -> (q: u128)
    requires
        d != 0,
        r < d,
    ensures
        q == r * FRACTIONAL / d as int,
        q < FRACTIONAL,
{
    let mut acc: u128 = 0;
    let mut x: u128 = r;
    let mut i: usize = 0;
    proof {
        lemma_pow0(10);
    }
    while i < 18
        invariant
            d != 0,
            r < d,
            x < d,
            0 <= i <= 18,
            acc < pow(10, i as nat),
            r * pow(10, i as nat) == acc * d + x,
        decreases 18 - i,
    {
        // multiply the remainder by ten against d, one addition at a time
        let mut carry: u128 = 0;
        let mut t: u128 = x;
        let mut j: usize = 0;
        while j < 9
            invariant
                d != 0,
                x < d,
                t < d,
                0 <= j <= 9,
                carry <= j,
                x * (j + 1) == carry * d + t,
            decreases 9 - j,
        {
            if t >= d - x {
                proof {
                    assert(x * (j + 2) == (carry + 1) * d + (t + x - d)) by (nonlinear_arith)
                        requires
                            x * (j + 1) == carry * d + t,
                    ;
                }
                t -= d - x;
                carry += 1;
            } else {
                proof {
                    assert(x * (j + 2) == carry * d + (t + x)) by (nonlinear_arith)
                        requires
                            x * (j + 1) == carry * d + t,
                    ;
                }
                t += x;
            }
            j += 1;
        }
        proof {
            // ten times the old remainder, as quotient digit and new remainder
            assert(x * 10 == carry * d + t);
            lemma_pow_adds(10, i as nat, 1);
            lemma_pow1(10);
            assert(pow(10, (i + 1) as nat) == 10 * pow(10, i as nat)) by (nonlinear_arith)
                requires
                    pow(10, (i + 1) as nat) == pow(10, i as nat) * pow(10, 1),
                    pow(10, 1) == 10,
            ;
            assert(r * pow(10, (i + 1) as nat) == (acc * 10 + carry) * d + t) by (nonlinear_arith)
                requires
                    r * pow(10, i as nat) == acc * d + x,
                    x * 10 == carry * d + t,
                    pow(10, (i + 1) as nat) == 10 * pow(10, i as nat),
            ;
            // the accumulated digits stay below the processed power of ten
            lemma_pow_positive(10, (i + 1) as nat);
            assert(acc * 10 + carry < pow(10, (i + 1) as nat)) by (nonlinear_arith)
                requires
                    r * pow(10, (i + 1) as nat) == (acc * 10 + carry) * d + t,
                    r < d,
                    0 <= t,
                    0 < d,
                    0 < pow(10, (i + 1) as nat),
            ;
            lemma_pow_increases(10, (i + 1) as nat, 18);
            assert(pow(10, 18) == FRACTIONAL) by {
                reveal_with_fuel(pow, 19);
            }
        }
        acc = acc * 10 + carry;
        x = t;
        i += 1;
    }
    proof {
        assert(pow(10, 18) == FRACTIONAL) by {
            reveal_with_fuel(pow, 19);
        }
        lemma_fundamental_div_mod_converse(r * FRACTIONAL, d as int, acc as int, x as int);
    }
    acc
}

impl Decimal {
    pub fn zero() -> (r: Decimal)
        ensures
            r == (Decimal { atomics: 0u128 }),
    {
        Decimal { atomics: 0 }
    }

    pub fn from_ratio(numerator: u128, denominator: u128) -> (r: Result<Decimal, ContractError>)
        ensures
            r == spec_from_ratio(numerator, denominator),
    {
        if denominator == 0 {
            return Err(ContractError::Arithmetic);
        }
        let quot = numerator / denominator;
        let rem = numerator % denominator;
        let frac = mul_frac_div(rem, denominator);
        proof {
            let nf = numerator * FRACTIONAL;
            lemma_fundamental_div_mod(numerator as int, denominator as int);
            assert(nf == (rem * FRACTIONAL) + (quot * FRACTIONAL) * denominator)
                by (nonlinear_arith)
                requires
                    numerator == denominator * quot + rem,
                    nf == numerator * FRACTIONAL,
            ;
            lemma_hoist_over_denominator(
                rem * FRACTIONAL,
                (quot * FRACTIONAL) as int,
                denominator as nat,
            );
            assert(nf / denominator as int == quot * FRACTIONAL + frac);
        }
        let head = match quot.checked_mul(FRACTIONAL) {
            Some(v) => v,
            None => {
                return Err(ContractError::Arithmetic);
            },
        };
        match head.checked_add(frac) {
            Some(atomics) => Ok(Decimal { atomics }),
            None => Err(ContractError::Arithmetic),
        }
    }

    pub fn checked_add(self, other: Decimal) -> (r: Result<Decimal, ContractError>)
        ensures
            r == spec_dec_add(self, other),
    {
        match self.atomics.checked_add(other.atomics) {
            None => Err(ContractError::Arithmetic),
            Some(sum) => Ok(Decimal { atomics: sum }),
        }
    }

    /// `amount * self` rounded down to a whole unit. The product is widened
    /// past the `u128` range by splitting the atomics at `2^64`, so only a
    /// result beyond `u128` fails.
    pub fn mul_floor(self, amount: u128) -> (r: Result<u128, ContractError>)
        ensures
            r == spec_mul_floor(amount, self),
    {
        let b = self.atomics;
        let quot = amount / FRACTIONAL;
        let rem = amount % FRACTIONAL;
        let b_hi = b / TWO64;
        let b_lo = b % TWO64;
        proof {
            lemma_mod_bound(amount as int, FRACTIONAL as int);
            lemma_mod_bound(b as int, TWO64 as int);
            lemma_fundamental_div_mod(b as int, TWO64 as int);
            assert(b_hi <= TWO64 - 1) by (nonlinear_arith)
                requires
                    b == TWO64 * b_hi + b_lo,
                    0 <= b_lo,
                    0 <= b_hi,
                    b <= u128::MAX,
            ;
            assert(rem * b_hi <= FRACTIONAL * (TWO64 - 1)) by (nonlinear_arith)
                requires
                    0 <= rem < FRACTIONAL,
                    0 <= b_hi <= TWO64 - 1,
            ;
            assert(rem * b_lo <= FRACTIONAL * (TWO64 - 1)) by (nonlinear_arith)
                requires
                    0 <= rem < FRACTIONAL,
                    0 <= b_lo <= TWO64 - 1,
            ;
        }
        let wide_hi = rem * b_hi;
        let wide_lo = rem * b_lo;
        let hi_q = wide_hi / FRACTIONAL;
        let hi_r = wide_hi % FRACTIONAL;
        proof {
            lemma_mod_bound(wide_hi as int, FRACTIONAL as int);
            // the high quotient fits beside a 64-bit shift
            lemma_div_is_ordered(wide_hi as int, (FRACTIONAL * (TWO64 - 1)) as int, FRACTIONAL as int);
            lemma_div_multiples_vanish((TWO64 - 1) as int, FRACTIONAL as int);
            assert(hi_q <= TWO64 - 1);
            assert(hi_q * TWO64 <= (TWO64 - 1) * TWO64) by (nonlinear_arith)
                requires
                    0 <= hi_q <= TWO64 - 1,
            ;
        }
        let part1 = hi_q * TWO64;
        let inner = hi_r * TWO64 + wide_lo;
        let part2 = inner / FRACTIONAL;
        proof {
            assert(hi_r * TWO64 <= (FRACTIONAL - 1) * TWO64) by (nonlinear_arith)
                requires
                    0 <= hi_r <= FRACTIONAL - 1,
            ;
            // rem * b, split at 2^64 and recombined
            assert(rem * b == wide_hi * TWO64 + wide_lo) by (nonlinear_arith)
                requires
                    b == TWO64 * b_hi + b_lo,
                    wide_hi == rem * b_hi,
                    wide_lo == rem * b_lo,
            ;
            lemma_fundamental_div_mod(wide_hi as int, FRACTIONAL as int);
            assert(rem * b == inner + (hi_q * TWO64) * FRACTIONAL) by (nonlinear_arith)
                requires
                    rem * b == wide_hi * TWO64 + wide_lo,
                    wide_hi == FRACTIONAL * hi_q + hi_r,
                    inner == hi_r * TWO64 + wide_lo,
            ;
            lemma_hoist_over_denominator(inner as int, (hi_q * TWO64) as int, FRACTIONAL as nat);
            assert(rem * b / FRACTIONAL as int == part1 + part2);
            // the fractional share never exceeds the atomics themselves
            assert(rem * b <= FRACTIONAL * b) by (nonlinear_arith)
                requires
                    0 <= rem < FRACTIONAL,
                    0 <= b,
            ;
            lemma_div_is_ordered((rem * b) as int, (FRACTIONAL * b) as int, FRACTIONAL as int);
            lemma_div_multiples_vanish(b as int, FRACTIONAL as int);
            assert(part1 + part2 <= b);
        }
        let tail = part1 + part2;
        proof {
            let ab = amount * b;
            lemma_fundamental_div_mod(amount as int, FRACTIONAL as int);
            assert(ab == (rem * b) + (quot * b) * FRACTIONAL) by (nonlinear_arith)
                requires
                    amount == FRACTIONAL * quot + rem,
                    ab == amount * b,
            ;
            lemma_hoist_over_denominator(rem * b, (quot * b) as int, FRACTIONAL as nat);
            assert(ab / FRACTIONAL as int == quot * b + tail);
        }
        let head = match quot.checked_mul(b) {
            Some(v) => v,
            None => {
                return Err(ContractError::Arithmetic);
            },
        };
        match head.checked_add(tail) {
            Some(v) => Ok(v),
            None => Err(ContractError::Arithmetic),
        }
    }
}

} // verus!
