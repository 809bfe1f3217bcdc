//! Fixed-point arithmetic for rates, efficiencies and modifiers.
//!
//! Efficiencies are counted in thousandths, per-capita rates in tenths,
//! conversion ratios in hundredths and compounding modifiers in billionths.
//! Every operation rounds once, where its formula says so, and saturates at
//! the largest value of its result type instead of wrapping.

use vstd::arithmetic::power::pow;
use vstd::prelude::*;

verus! {

/// An efficiency of exactly one, in thousandths.
pub const PER_MILLE: usize = 1000;

/// A modifier of exactly one, in billionths.
pub const UNIT: u64 = 1_000_000_000;

/// The divisor that turns tenths x heads x thousandths x billionths into whole units.
pub const YIELD_SCALE: u128 = 10_000_000_000_000;

/// `x`, capped at the largest `usize`.
pub open spec fn saturate(x: int) -> int {
    if x > usize::MAX {
        usize::MAX as int
    } else {
        x
    }
}

/// `x`, capped at the largest `u64`.
pub open spec fn saturate64(x: int) -> int {
    if x > u64::MAX {
        u64::MAX as int
    } else {
        x
    }
}

/// A base modifier (billionths) multiplied by an efficiency (thousandths),
/// rounded down to a whole number of billionths.
pub open spec fn boosted(base: int, efficiency: int) -> int {
    saturate64(base * efficiency / (PER_MILLE as int))
}

/// `factor` (billionths) raised to the power `count`, rounded down to a whole
/// number of billionths after each multiplication.
pub open spec fn compound(factor: int, count: nat) -> int
    decreases count,
{
    if count == 0 {
        UNIT as int
    } else {
        saturate64(compound(factor, (count - 1) as nat) * factor / (UNIT as int))
    }
}

/// `amount` multiplied by a modifier in billionths, rounded down.
pub open spec fn scaled(amount: int, factor: int) -> int {
    saturate(amount * factor / (UNIT as int))
}

/// Whole units produced in a day: a per-capita rate in tenths, times the
/// population, an efficiency in thousandths and a modifier in billionths,
/// rounded down once at the end.
pub open spec fn daily_yield(rate: int, population: int, efficiency: int, factor: int) -> int {
    saturate(rate * population * efficiency * factor / (YIELD_SCALE as int))
}

/// `amount * rate / 100`, rounded down.
pub open spec fn hundredths_floor(amount: int, rate: int) -> int {
    saturate(amount * rate / 100)
}

/// `amount * rate / 100`, rounded up.
pub open spec fn hundredths_ceil(amount: int, rate: int) -> int {
    saturate((amount * rate + 99) / 100)
}

/// The product of two 64-bit values fits in 128 bits, with room to spare.
pub proof fn lemma_product_fits(a: int, b: int)
    requires
        0 <= a <= u64::MAX,
        0 <= b <= u64::MAX,
    ensures
        0 <= a * b <= u128::MAX - u64::MAX,
{
    assert(0 <= a * b <= 0xffff_ffff_ffff_ffff * 0xffff_ffff_ffff_ffff) by (nonlinear_arith)
        requires
            0 <= a <= 0xffff_ffff_ffff_ffff,
            0 <= b <= 0xffff_ffff_ffff_ffff,
    ;
}

/// A product too large for 128 bits, divided by at most 2^64, exceeds every `usize`.
pub proof fn lemma_overflow_saturates(product: int, divisor: int)
    requires
        product > u128::MAX,
        0 < divisor <= 0x1_0000_0000_0000_0000,
    ensures
        product / divisor > usize::MAX,
        product / divisor > u64::MAX,
{
    assert(product / divisor >= 0x1_0000_0000_0000_0000) by (nonlinear_arith)
        requires
            product >= 0x1_0000_0000_0000_0000_0000_0000_0000_0000,
            0 < divisor <= 0x1_0000_0000_0000_0000,
    ;
}

/// A compounded modifier is a `u64`, whatever is compounded.
pub proof fn lemma_compound_bounds(factor: int, count: nat)
    requires
        0 <= factor,
    ensures
        0 <= compound(factor, count) <= u64::MAX,
    decreases count,
{
    if count > 0 {
        lemma_compound_bounds(factor, (count - 1) as nat);
        let earlier = compound(factor, (count - 1) as nat);
        assert(0 <= earlier * factor / (UNIT as int)) by (nonlinear_arith)
            requires
                0 <= earlier,
                0 <= factor,
        ;
    }
}

/// A modifier of at most one only ever shrinks what it is raised to: each
/// further power is no larger than the one before, and none exceeds one.
pub proof fn lemma_compound_shrinks(factor: int, count: nat)
    requires
        0 <= factor <= UNIT,
    ensures
        0 <= compound(factor, count + 1) <= compound(factor, count) <= UNIT,
    decreases count,
{
    lemma_compound_bounds(factor, count);
    lemma_compound_bounds(factor, count + 1);
    if count > 0 {
        lemma_compound_shrinks(factor, (count - 1) as nat);
    }
    let earlier = compound(factor, count);
    assert(earlier * factor / (UNIT as int) <= earlier) by (nonlinear_arith)
        requires
            0 <= earlier,
            0 <= factor <= 1_000_000_000,
            UNIT == 1_000_000_000,
    ;
}

/// Rounding down never takes a compounded modifier above the exact power:
/// as a fraction of one, `compound(factor, count)` is at most `factor` as a
/// fraction of one, raised to the power `count`.
pub proof fn lemma_compound_at_most_power(factor: int, count: nat)
    requires
        0 <= factor,
    ensures
        0 <= pow(factor, count),
        0 < pow(UNIT as int, count),
        compound(factor, count) * pow(UNIT as int, count) <= pow(factor, count) * UNIT,
    decreases count,
{
    reveal(pow);
    if count > 0 {
        let before = (count - 1) as nat;
        lemma_compound_at_most_power(factor, before);
        lemma_compound_bounds(factor, before);
        let c = compound(factor, before);
        let d = compound(factor, count);
        let p = pow(UNIT as int, before);
        let q = pow(factor, before);
        let u = UNIT as int;
        assert(d * u <= c * factor) by (nonlinear_arith)
            requires
                d <= (c * factor) / u,
                u > 0,
        ;
        assert(d * u * p <= c * factor * p) by (nonlinear_arith)
            requires
                d * u <= c * factor,
                p >= 0,
        ;
        assert(c * factor * p <= q * u * factor) by (nonlinear_arith)
            requires
                c * p <= q * u,
                factor >= 0,
        ;
        assert(d * (u * p) == d * u * p) by (nonlinear_arith);
        assert((factor * q) * u == q * u * factor) by (nonlinear_arith);
        assert(0 <= factor * q) by (nonlinear_arith)
            requires
                0 <= factor,
                0 <= q,
        ;
        assert(0 < u * p) by (nonlinear_arith)
            requires
                0 < u,
                0 < p,
        ;
    }
}

/// Where a modifier is at most one, rounding down costs a compounded
/// modifier less than a billionth for each multiplication: with `count`
/// billionths added, `compound(factor, count)` is at least the exact power.
pub proof fn lemma_compound_near_power(factor: int, count: nat)
    requires
        0 <= factor <= UNIT,
    ensures
        (compound(factor, count) + count) * pow(UNIT as int, count) >= pow(factor, count) * UNIT,
    decreases count,
{
    reveal(pow);
    if count > 0 {
        let before = (count - 1) as nat;
        lemma_compound_near_power(factor, before);
        lemma_compound_at_most_power(factor, before);
        lemma_compound_shrinks(factor, before);
        let c = compound(factor, before);
        let d = compound(factor, count);
        let p = pow(UNIT as int, before);
        let q = pow(factor, before);
        let u = UNIT as int;
        let n = before as int;
        assert((d + 1) * u >= c * factor) by (nonlinear_arith)
            requires
                d == (c * factor) / u,
                u > 0,
        ;
        assert((d + 1) * u * p >= c * factor * p) by (nonlinear_arith)
            requires
                (d + 1) * u >= c * factor,
                p >= 0,
        ;
        assert(n * u * p >= n * factor * p) by (nonlinear_arith)
            requires
                u >= factor,
                n >= 0,
                p >= 0,
        ;
        assert((c + n) * p * factor >= q * u * factor) by (nonlinear_arith)
            requires
                (c + n) * p >= q * u,
                factor >= 0,
        ;
        assert((d + n + 1) * (u * p) == (d + 1) * u * p + n * u * p) by (nonlinear_arith);
        assert((c + n) * p * factor == c * factor * p + n * factor * p) by (nonlinear_arith);
        assert((factor * q) * u == q * u * factor) by (nonlinear_arith);
    }
}

/// A day's yield is a `usize`, whatever goes into it.
pub proof fn lemma_yield_bounds(rate: int, population: int, efficiency: int, factor: int)
    requires
        0 <= rate,
        0 <= population,
        0 <= efficiency,
        0 <= factor,
    ensures
        0 <= daily_yield(rate, population, efficiency, factor) <= usize::MAX,
{
    assert(0 <= rate * population * efficiency * factor / (YIELD_SCALE as int))
        by (nonlinear_arith)
        requires
            0 <= rate,
            0 <= population,
            0 <= efficiency,
            0 <= factor,
    ;
}

/// A scaled amount is a `usize`, whatever is scaled.
pub proof fn lemma_scaled_bounds(amount: int, factor: int)
    requires
        0 <= amount,
        0 <= factor,
    ensures
        0 <= scaled(amount, factor) <= usize::MAX,
{
    assert(0 <= amount * factor / (UNIT as int)) by (nonlinear_arith)
        requires
            0 <= amount,
            0 <= factor,
    ;
}

/// The product of two counts, capped at the largest `usize`.
pub fn saturating_product(a: usize, b: usize) -> (r: usize)
    ensures
        r == saturate(a * b),
{
    match a.checked_mul(b) {
        Some(product) => product,
        None => usize::MAX,
    }
}

/// A base modifier in billionths, multiplied by an efficiency in thousandths.
pub fn boost(base: u64, efficiency: usize) -> (r: u64)
    ensures
        r == boosted(base as int, efficiency as int),
{
    proof {
        lemma_product_fits(base as int, efficiency as int);
    }
    let wide: u128 = base as u128 * efficiency as u128;
    let quotient: u128 = wide / (PER_MILLE as u128);
    if quotient > u64::MAX as u128 {
        u64::MAX
    } else {
        quotient as u64
    }
}

/// A modifier in billionths, raised to the power `count`.
pub fn compounded(factor: u64, count: usize) -> (r: u64)
    ensures
        r == compound(factor as int, count as nat),
{
    let mut acc: u64 = UNIT;
    let mut done: usize = 0;
    while done < count
        invariant
            done <= count,
            acc == compound(factor as int, done as nat),
        decreases count - done,
    {
        proof {
            lemma_product_fits(acc as int, factor as int);
        }
        let wide: u128 = acc as u128 * factor as u128;
        let quotient: u128 = wide / (UNIT as u128);
        acc = if quotient > u64::MAX as u128 {
            u64::MAX
        } else {
            quotient as u64
        };
        done += 1;
    }
    acc
}

/// What a modifier in billionths leaves of an amount.
pub fn scale(amount: usize, factor: u64) -> (r: usize)
    ensures
        r == scaled(amount as int, factor as int),
{
    proof {
        lemma_product_fits(amount as int, factor as int);
    }
    let wide: u128 = amount as u128 * factor as u128;
    let quotient: u128 = wide / (UNIT as u128);
    if quotient > usize::MAX as u128 {
        usize::MAX
    } else {
        quotient as usize
    }
}

/// The whole units that a population produces in a day.
pub fn yield_of(rate: usize, population: usize, efficiency: usize, factor: u64) -> (r: usize)
    ensures
        r == daily_yield(rate as int, population as int, efficiency as int, factor as int),
{
    if rate == 0 || population == 0 || efficiency == 0 || factor == 0 {
        assert(rate * population * efficiency * factor == 0) by (nonlinear_arith)
            requires
                rate == 0 || population == 0 || efficiency == 0 || factor == 0,
        ;
        return 0;
    }
    proof {
        lemma_product_fits(rate as int, population as int);
    }
    let heads: u128 = rate as u128 * population as u128;
    let worked: u128 = match heads.checked_mul(efficiency as u128) {
        Some(product) => product,
        None => {
            proof {
                assert(heads * efficiency * factor >= heads * efficiency) by (nonlinear_arith)
                    requires
                        heads * efficiency >= 0,
                        factor >= 1,
                ;
                lemma_overflow_saturates(
                    rate * population * efficiency * factor,
                    YIELD_SCALE as int,
                );
            }
            return usize::MAX;
        },
    };
    let total: u128 = match worked.checked_mul(factor as u128) {
        Some(product) => product,
        None => {
            proof {
                lemma_overflow_saturates(
                    rate * population * efficiency * factor,
                    YIELD_SCALE as int,
                );
            }
            return usize::MAX;
        },
    };
    let quotient: u128 = total / YIELD_SCALE;
    if quotient > usize::MAX as u128 {
        usize::MAX
    } else {
        quotient as usize
    }
}

/// So many hundredths of an amount, rounded down.
pub fn floor_hundredths(amount: usize, rate: usize) -> (r: usize)
    ensures
        r == hundredths_floor(amount as int, rate as int),
{
    proof {
        lemma_product_fits(amount as int, rate as int);
    }
    let wide: u128 = amount as u128 * rate as u128;
    let quotient: u128 = wide / 100;
    if quotient > usize::MAX as u128 {
        usize::MAX
    } else {
        quotient as usize
    }
}

/// So many hundredths of an amount, rounded up.
pub fn ceil_hundredths(amount: usize, rate: usize) -> (r: usize)
    ensures
        r == hundredths_ceil(amount as int, rate as int),
{
    proof {
        lemma_product_fits(amount as int, rate as int);
    }
    let wide: u128 = amount as u128 * rate as u128;
    let quotient: u128 = (wide + 99) / 100;
    if quotient > usize::MAX as u128 {
        usize::MAX
    } else {
        quotient as usize
    }
}

} // verus!
