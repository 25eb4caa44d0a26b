//! The frequency planner: from a target output frequency and the reference
//! frequency to the PLL multiplier, its fractional part and the output
//! divider.

use vstd::prelude::*;
use vstd::arithmetic::div_mod::lemma_fundamental_div_mod;
use crate::rounding::{
    quotient_floor, quotient_floor_bounds, quotient_scaled, saturate, saturate_u32, single_of,
    single_of_bounds, to_single,
};

verus! {

/// Highest frequency that the PLL is run at, in hertz.
pub const PLL_CEILING: u32 = 900_000_000;

/// Denominator of the fractional part of the PLL multiplier: the largest
/// 20-bit value.
pub const DENOMINATOR: u32 = 1_048_575;

/// What the planner decides for one target frequency.
#[derive(Copy, Clone, Debug, PartialEq, Eq, Structural)]
pub struct FrequencyPlan {
    /// Integer part of the PLL multiplier, cut to eight bits.
    pub mult: u8,
    /// Numerator of the fractional part of the PLL multiplier.
    pub num: u32,
    /// Denominator of the fractional part: always [`DENOMINATOR`].
    pub denom: u32,
    /// Integer divider of the output stage.
    pub divider: u32,
}

/// The output divider for `target`: the largest even number of times that
/// `target` fits into the PLL ceiling.
pub open spec fn divider_for(target: nat) -> nat
    recommends
        target > 0,
{
    let d = 900_000_000nat / target;
    if d % 2 == 0 {
        d
    } else {
        (d - 1) as nat
    }
}

/// The frequency that the PLL has to lock to.
pub open spec fn pll_frequency(target: nat) -> nat {
    divider_for(target) * target
}

/// Integer part of the PLL multiplier, cut to eight bits.
pub open spec fn multiplier_for(target: nat, reference: nat) -> nat
    recommends
        target > 0,
        reference > 0,
{
    (pll_frequency(target) / reference) % 256
}

/// What the integer multiplier leaves of the PLL frequency.
pub open spec fn remainder_for(target: nat, reference: nat) -> nat
    recommends
        target > 0,
        reference > 0,
{
    pll_frequency(target) % reference
}

/// Numerator of the fractional part: `remainder * 1048575 / reference`
/// evaluated in single precision from left to right, each operand and each
/// result rounded, and the last result cut off behind the point.
pub open spec fn numerator_for(target: nat, reference: nat) -> u32
    recommends
        target > 0,
        reference > 0,
{
    let product = single_of(single_of(remainder_for(target, reference)) * 1_048_575);
    saturate(quotient_floor(product, single_of(reference), 1))
}

/// The plan for `target` on a device clocked with `reference`.
pub open spec fn plan_for(target: nat, reference: nat) -> FrequencyPlan
    recommends
        target > 0,
        reference > 0,
{
    FrequencyPlan {
        mult: multiplier_for(target, reference) as u8,
        num: numerator_for(target, reference),
        denom: DENOMINATOR,
        divider: divider_for(target) as u32,
    }
}

/// The divider is even, the PLL frequency it asks for does not exceed the
/// ceiling, and the next even divider would.
pub proof fn divider_is_even_and_tight(target: nat)
    requires
        target > 0,
    ensures
        divider_for(target) % 2 == 0,
        divider_for(target) <= 900_000_000,
        divider_for(target) * target <= 900_000_000 < (divider_for(target) + 2) * target,
{
    let q: nat = 900_000_000nat / target;
    let d: nat = divider_for(target);
    lemma_fundamental_div_mod(900_000_000, target as int);
    assert(q * target == target * q) by (nonlinear_arith);
    let r: nat = 900_000_000nat % target;
    assert(900_000_000 < (q + 1) * target) by (nonlinear_arith)
        requires
            900_000_000 == q * target + r,
            r < target,
    ;
    assert(d * target <= q * target) by (nonlinear_arith)
        requires
            d <= q,
    ;
    assert((q + 1) * target <= (d + 2) * target) by (nonlinear_arith)
        requires
            q + 1 <= d + 2,
    ;
    assert(q <= q * target) by (nonlinear_arith)
        requires
            target >= 1,
    ;
}

/// The single-precision numerator for a remainder below the reference
/// differs by at most one from the exact `floor(remainder * 1048575 /
/// reference)`, and never exceeds the denominator.
pub proof fn fraction_is_near_the_exact_quotient(remainder: nat, reference: nat)
    requires
        remainder < reference,
    ensures
        ({
            let exact = remainder * 1_048_575 / reference;
            let num = quotient_floor(
                single_of(single_of(remainder) * 1_048_575),
                single_of(reference),
                1,
            );
            &&& exact <= num + 1
            &&& num <= exact + 1
            &&& num <= 1_048_575
        }),
{
    let a: nat = single_of(remainder);
    let b: nat = single_of(a * 1_048_575);
    let c: nat = single_of(reference);
    let q: nat = quotient_floor(b, c, 1);
    let lk: nat = remainder * 1_048_575;
    let exact: nat = lk / reference;
    single_of_bounds(remainder);
    single_of_bounds(a * 1_048_575);
    single_of_bounds(reference);
    assert(c > 0);
    // every rounding moves its operand by at most one part in 2^24
    assert(b * 0x100_0000 * 0x100_0000 <= lk * 0x100_0001 * 0x100_0001);
    assert(lk * 0xff_ffff * 0xff_ffff <= b * 0x100_0000 * 0x100_0000);
    assert(b < c * 0x100_0000);
    quotient_floor_bounds(b, c);
    let qc: nat = q * c;
    let qr: nat = q * reference;
    assert(q * c * 0x100_0000 == qc * 0x100_0000);
    assert((q + 1) * c * 0x100_0000 == (qc + c) * 0x100_0000) by (nonlinear_arith)
        requires
            qc == q * c,
    ;
    assert(qr * 0xff_ffff <= qc * 0x100_0000) by (nonlinear_arith)
        requires
            reference * 0xff_ffff <= c * 0x100_0000,
            qr == q * reference,
            qc == q * c,
    ;
    assert(qc * 0x100_0000 <= qr * 0x100_0001) by (nonlinear_arith)
        requires
            c * 0x100_0000 <= reference * 0x100_0001,
            qr == q * reference,
            qc == q * c,
    ;
    assert(qr < lk + reference);
    assert(lk < qr + 2 * reference);
    lemma_fundamental_div_mod(lk as int, reference as int);
    let er: nat = exact * reference;
    assert(reference * exact == er) by (nonlinear_arith)
        requires
            er == exact * reference,
    ;
    assert(q <= exact + 1) by (nonlinear_arith)
        requires
            qr == q * reference,
            er == exact * reference,
            qr < er + 2 * reference,
            reference > 0,
    ;
    assert(exact <= q + 1) by (nonlinear_arith)
        requires
            qr == q * reference,
            er == exact * reference,
            er < qr + 2 * reference,
            reference > 0,
    ;
    assert(q <= 1_048_575) by (nonlinear_arith)
        requires
            qr == q * reference,
            qr < 1_048_576 * reference,
            reference > 0,
    ;
}

/// Within the reach of the planner the numerator is the single-precision
/// quotient itself, no more than one away from the exact
/// `floor(remainder * 1048575 / reference)`, and it fits in 20 bits.
pub proof fn numerator_is_near_the_exact_fraction(target: nat, reference: nat)
    requires
        target > 0,
        reference > 0,
    ensures
        ({
            let exact = remainder_for(target, reference) * 1_048_575 / reference;
            &&& exact <= numerator_for(target, reference) + 1
            &&& numerator_for(target, reference) <= exact + 1
            &&& numerator_for(target, reference) <= DENOMINATOR
        }),
{
    let remainder: nat = remainder_for(target, reference);
    assert(remainder < reference) by (nonlinear_arith)
        requires
            remainder == pll_frequency(target) % reference,
            reference > 0,
    ;
    fraction_is_near_the_exact_quotient(remainder, reference);
}

/// The output divider for `target_freq`.
pub fn output_divider(target_freq: u32) -> (d: u32)
    requires
        target_freq > 0,
    ensures
        d == divider_for(target_freq as nat),
        d % 2 == 0,
        d * target_freq <= PLL_CEILING < (d + 2) * target_freq,
{
    proof {
        divider_is_even_and_tight(target_freq as nat);
    }
    let d: u32 = PLL_CEILING / target_freq;
    if d % 2 == 0 {
        d
    } else {
        d - 1
    }
}

/// Numerator of the fractional part of the multiplier for a PLL frequency
/// that leaves `remainder` hertz over a whole multiple of `reference_freq`.
pub fn fraction_numerator(remainder: u32, reference_freq: u32) -> (num: u32)
    requires
        reference_freq > 0,
    ensures
        num == saturate(
            quotient_floor(
                single_of(single_of(remainder as nat) * 1_048_575),
                single_of(reference_freq as nat),
                1,
            ),
        ),
{
    let rounded: u64 = to_single(remainder as u64);
    assert(rounded <= 0x1_0000_00ff);
    let product: u64 = to_single(rounded * 1_048_575);
    let reference: u64 = to_single(reference_freq as u64);
    saturate_u32(quotient_scaled(product, reference, 1))
}

/// Plans the PLL multiplier and the output divider for `target_freq` on a
/// device whose reference oscillator runs at `reference_freq`.
pub fn plan_frequency(target_freq: u32, reference_freq: u32) -> (plan: FrequencyPlan)
    requires
        target_freq > 0,
        reference_freq > 0,
    ensures
        plan == plan_for(target_freq as nat, reference_freq as nat),
        plan.divider % 2 == 0,
        plan.divider * target_freq <= PLL_CEILING < (plan.divider + 2) * target_freq,
        plan.mult == (plan.divider * target_freq / (reference_freq as int)) % 256,
        plan.denom == DENOMINATOR,
        plan.num <= DENOMINATOR,
        ({
            let exact = (plan.divider * target_freq) % (reference_freq as int) * 1_048_575 / (
            reference_freq as int);
            exact - 1 <= plan.num <= exact + 1
        }),
{
    proof {
        numerator_is_near_the_exact_fraction(target_freq as nat, reference_freq as nat);
    }
    let divider: u32 = output_divider(target_freq);
    let pll_freq: u32 = divider * target_freq;
    let mult: u8 = ((pll_freq / reference_freq) % 256) as u8;
    let remainder: u32 = pll_freq % reference_freq;
    let num: u32 = fraction_numerator(remainder, reference_freq);
    FrequencyPlan { mult, num, denom: DENOMINATOR, divider }
}

} // verus!
