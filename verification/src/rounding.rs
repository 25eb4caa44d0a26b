//! Single-precision rounding, modelled on integers.
//!
//! The fractional PLL parameters of the device are defined through
//! single-precision arithmetic: a value is kept with 24 significant bits and
//! every operation rounds its exact result to the nearest such value, a tie
//! going to the value whose last kept bit is zero. This module states that
//! rounding over the naturals and computes it with integer arithmetic alone,
//! so that the register values are the same on every machine.

use vstd::prelude::*;
use vstd::arithmetic::div_mod::{lemma_div_denominator, lemma_fundamental_div_mod};
use vstd::arithmetic::power2::{pow2, lemma_pow2_unfold, lemma2_to64};

verus! {

/// Values below this bound are held exactly: 2^24.
pub const EXACT_LIMIT: u64 = 0x100_0000;

/// Largest operand of [`to_single`]: 2^63.
pub const SINGLE_INPUT_MAX: u64 = 0x8000_0000_0000_0000;

/// Largest numerator of [`quotient_scaled`]: 2^53.
pub const NUMERATOR_MAX: u64 = 0x20_0000_0000_0000;

/// Largest denominator of [`quotient_scaled`]: 2^33.
pub const DENOMINATOR_MAX: u64 = 0x2_0000_0000;

/// Largest scale of [`quotient_scaled`].
pub const SCALE_MAX: u64 = 128;

/// The fraction `n / d` rounded to the nearest integer; where it lies halfway
/// between two integers, the even one.
pub open spec fn nearest_even(n: nat, d: nat) -> nat
    recommends
        d > 0,
{
    let q = n / d;
    let r = n % d;
    if 2 * r < d || (2 * r == d && q % 2 == 0) {
        q
    } else {
        q + 1
    }
}

/// Distance between neighbouring single-precision values at `x`: 1 below
/// 2^24, and twice as much with every further bit of `x`.
pub open spec fn spacing(x: nat) -> nat
    decreases x,
{
    if x < 0x100_0000 {
        1
    } else {
        2 * spacing(x / 2)
    }
}

/// The single-precision value nearest to the integer `x`.
pub open spec fn single_of(x: nat) -> nat {
    nearest_even(x, spacing(x)) * spacing(x)
}

/// Number of binary places behind the point that the single-precision value
/// of `n / d` keeps: the least `s` with `n * 2^s >= d * 2^23`, and 0 for a
/// quotient of zero.
pub open spec fn places(n: nat, d: nat) -> nat
    decreases
        (if n < d * 0x80_0000 {
            d * 0x80_0000 - n
        } else {
            0
        }),
{
    if 0 < n < d * 0x80_0000 {
        1 + places(2 * n, d)
    } else {
        0
    }
}

/// `floor(scale * fl(n / d))`, where `fl` rounds the exact quotient to single
/// precision.
///
/// The rounded quotient is `m * u / 2^s`: `u` is the spacing at the integer
/// part of the quotient, `s` the number of places kept behind the point (one
/// of `u` and `2^s` is 1), and `m` the nearest integer to `n * 2^s / (d * u)`.
pub open spec fn quotient_floor(n: nat, d: nat, scale: nat) -> nat
    recommends
        d > 0,
{
    let u = spacing(n / d);
    let s = places(n, d);
    scale * (nearest_even(n * pow2(s), d * u) * u) / pow2(s)
}

/// Conversion of a non-negative real to `u32` as the machine does it: the
/// integer part, or the largest `u32` where that does not fit.
pub open spec fn saturate(x: nat) -> u32 {
    if x > u32::MAX {
        u32::MAX
    } else {
        x as u32
    }
}

/// The spacing divides the range `[2^23, 2^24)` of significands: at and above
/// 2^24, `x` lies between `2^23` and `2^24` spacings.
pub proof fn spacing_bounds(x: nat)
    ensures
        spacing(x) >= 1,
        x / spacing(x) < 0x100_0000,
        x < 0x100_0000 ==> spacing(x) == 1,
        x >= 0x100_0000 ==> spacing(x) * 0x80_0000 <= x,
    decreases x,
{
    if x >= 0x100_0000 {
        let h: nat = x / 2;
        spacing_bounds(h);
        let u: nat = spacing(h);
        assert(spacing(x) == 2 * u);
        lemma_div_denominator(x as int, 2, u as int);
        assert(x / (2 * u) == h / u);
        if h >= 0x100_0000 {
            assert(2 * (u * 0x80_0000) <= x);
            assert((2 * u) * 0x80_0000 == 2 * (u * 0x80_0000)) by (nonlinear_arith);
        } else {
            assert(u == 1);
        }
    }
}

/// Rounding to the nearest integer moves a fraction by at most one half.
pub proof fn nearest_even_bounds(n: nat, d: nat)
    requires
        d > 0,
    ensures
        n / d <= nearest_even(n, d) <= n / d + 1,
        2 * n <= (2 * nearest_even(n, d) + 1) * d,
        (2 * nearest_even(n, d) - 1) * d <= 2 * n,
        n % d == 0 ==> nearest_even(n, d) == n / d,
{
    let q: nat = n / d;
    let r: nat = n % d;
    lemma_fundamental_div_mod(n as int, d as int);
    assert(n == d * q + r);
    assert((2 * q + 1) * d == 2 * (d * q) + d) by (nonlinear_arith);
    assert((2 * (q + 1) + 1) * d == 2 * (d * q) + 3 * d) by (nonlinear_arith);
    assert((2 * q - 1) * d == 2 * (d * q) - d) by (nonlinear_arith);
    assert((2 * (q + 1) - 1) * d == 2 * (d * q) + d) by (nonlinear_arith);
}

/// A single-precision value differs from the integer it stands for by at most
/// half a spacing, which is at most one part in 2^24; integers below 2^24 are
/// held exactly.
pub proof fn single_of_bounds(x: nat)
    ensures
        x < 0x100_0000 ==> single_of(x) == x,
        2 * single_of(x) <= 2 * x + spacing(x),
        2 * x <= 2 * single_of(x) + spacing(x),
        single_of(x) * 0x100_0000 <= x * 0x100_0001,
        x * 0xff_ffff <= single_of(x) * 0x100_0000,
{
    let u: nat = spacing(x);
    let m: nat = nearest_even(x, u);
    spacing_bounds(x);
    nearest_even_bounds(x, u);
    assert((2 * m + 1) * u == 2 * (m * u) + u) by (nonlinear_arith);
    assert((2 * m - 1) * u == 2 * (m * u) - u) by (nonlinear_arith);
    if x < 0x100_0000 {
        assert(x % 1 == 0);
        assert(x / 1 == x);
        assert(m * 1 == m);
    }
}

/// The places kept behind the point bring a quotient below 2^24 into the
/// range of the significands: `n * 2^s` lies between `d * 2^23` and
/// `d * 2^24`.
pub proof fn places_bounds(n: nat, d: nat)
    requires
        d > 0,
        0 < n < d * 0x100_0000,
    ensures
        pow2(places(n, d)) >= 1,
        d * 0x80_0000 <= n * pow2(places(n, d)) < d * 0x100_0000,
    decreases
        (if n < d * 0x80_0000 {
            d * 0x80_0000 - n
        } else {
            0
        }),
{
    lemma2_to64();
    if n < d * 0x80_0000 {
        let s: nat = places(2 * n, d);
        places_bounds(2 * n, d);
        lemma_pow2_unfold(1 + s);
        assert(n * (2 * pow2(s)) == (2 * n) * pow2(s)) by (nonlinear_arith);
    } else {
        assert(n * 1 == n);
    }
}

/// The integer part of a single-precision quotient below 2^24 lies within
/// one part in 2^24 of the exact quotient: at most that much above it, and
/// less than one plus that much below it.
pub proof fn quotient_floor_bounds(n: nat, d: nat)
    requires
        d > 0,
        n < d * 0x100_0000,
    ensures
        quotient_floor(n, d, 1) * d * 0x100_0000 <= n * 0x100_0001,
        n * 0xff_ffff <= (quotient_floor(n, d, 1) + 1) * d * 0x100_0000,
{
    lemma2_to64();
    lemma_fundamental_div_mod(n as int, d as int);
    assert(n / d < 0x100_0000) by (nonlinear_arith)
        requires
            n == d * (n / d) + n % d,
            n < d * 0x100_0000,
            d > 0,
            n % d >= 0,
    ;
    spacing_bounds(n / d);
    let s: nat = places(n, d);
    let p: nat = pow2(s);
    let m: nat = nearest_even(n * p, d);
    let q: nat = quotient_floor(n, d, 1);
    assert(d * 1 == d);
    assert(q == 1 * (m * 1) / p);
    assert(q == m / p);
    if n == 0 {
        assert(s == 0 && p == 1);
        assert(0nat * 1 == 0);
        assert(0nat % d == 0 && 0nat / d == 0) by (nonlinear_arith)
            requires
                d > 0,
        ;
        assert(m == 0);
        assert(q == 0);
        assert(0nat * d * 0x100_0000 == 0);
    } else {
        places_bounds(n, d);
        nearest_even_bounds(n * p, d);
        let np: nat = n * p;
        let md: nat = m * d;
        assert((2 * m + 1) * d == 2 * md + d) by (nonlinear_arith)
            requires
                md == m * d,
        ;
        assert((2 * m - 1) * d == 2 * md - d) by (nonlinear_arith)
            requires
                md == m * d,
        ;
        // m * d lies within d / 2 of n * p, and d is at most n * p / 2^23
        assert(md * 0x100_0000 <= np * 0x100_0001);
        assert(np * 0xff_ffff <= md * 0x100_0000);
        lemma_fundamental_div_mod(m as int, p as int);
        let r: nat = m % p;
        assert(m == p * q + r && r < p);
        // upper bound: q * p <= m
        assert(q * d * 0x100_0000 * p <= md * 0x100_0000) by (nonlinear_arith)
            requires
                m == p * q + r,
                md == m * d,
        ;
        assert(n * 0x100_0001 * p == np * 0x100_0001) by (nonlinear_arith)
            requires
                np == n * p,
        ;
        assert(q * d * 0x100_0000 <= n * 0x100_0001) by (nonlinear_arith)
            requires
                q * d * 0x100_0000 * p <= n * 0x100_0001 * p,
                p >= 1,
        ;
        // lower bound: m < (q + 1) * p
        assert(md * 0x100_0000 <= (q + 1) * d * 0x100_0000 * p) by (nonlinear_arith)
            requires
                m == p * q + r,
                r < p,
                md == m * d,
        ;
        assert(n * 0xff_ffff * p == np * 0xff_ffff) by (nonlinear_arith)
            requires
                np == n * p,
        ;
        assert(n * 0xff_ffff <= (q + 1) * d * 0x100_0000) by (nonlinear_arith)
            requires
                n * 0xff_ffff * p <= (q + 1) * d * 0x100_0000 * p,
                p >= 1,
        ;
    }
}

/// The spacing of the single-precision values at `x`.
pub fn spacing_of(x: u64) -> (unit: u64)
    ensures
        unit == spacing(x as nat),
        unit >= 1,
        x / unit < EXACT_LIMIT,
        x >= EXACT_LIMIT ==> unit * 0x80_0000 <= x,
{
    let mut unit: u64 = 1;
    let mut head: u64 = x;
    while head >= EXACT_LIMIT
        invariant
            unit >= 1,
            head == x / unit,
            unit * head <= x,
            spacing(x as nat) == unit * spacing(head as nat),
        decreases head,
    {
        proof {
            lemma_div_denominator(x as int, unit as int, 2);
            assert((unit * 2) * (head / 2) <= unit * head) by (nonlinear_arith)
                requires
                    unit >= 1,
            ;
            assert(unit * 0x100_0000 <= unit * head) by (nonlinear_arith)
                requires
                    head >= 0x100_0000,
                    unit >= 1,
            ;
            assert(unit * (2 * spacing((head / 2) as nat)) == (unit * 2) * spacing(
                (head / 2) as nat,
            )) by (nonlinear_arith);
        }
        head = head / 2;
        unit = unit * 2;
    }
    proof {
        spacing_bounds(x as nat);
        let rest: nat = spacing(head as nat);
        assert(unit * rest == unit) by (nonlinear_arith)
            requires
                rest == 1,
        ;
    }
    unit
}

/// `n / d` rounded to the nearest integer, a tie going to the even one.
pub fn round_div(n: u64, d: u64) -> (m: u64)
    requires
        d > 0,
    ensures
        m == nearest_even(n as nat, d as nat),
        n / d <= m <= n / d + 1,
{
    let q: u64 = n / d;
    let r: u64 = n % d;
    if r < d - r || (r == d - r && q % 2 == 0) {
        q
    } else {
        proof {
            lemma_fundamental_div_mod(n as int, d as int);
            assert(d >= 2);
            assert(d * q >= 2 * q) by (nonlinear_arith)
                requires
                    d >= 2,
            ;
        }
        q + 1
    }
}

/// The single-precision value nearest to `x`.
pub fn to_single(x: u64) -> (r: u64)
    requires
        x <= SINGLE_INPUT_MAX,
    ensures
        r == single_of(x as nat),
        x < EXACT_LIMIT ==> r == x,
        r * 0x100_0000 <= x * 0x100_0001,
        x * 0xff_ffff <= r * 0x100_0000,
{
    let unit: u64 = spacing_of(x);
    let m: u64 = round_div(x, unit);
    proof {
        single_of_bounds(x as nat);
        assert(m * unit == single_of(x as nat));
    }
    m * unit
}

/// `floor(scale * fl(n / d))`: the quotient of two single-precision values,
/// rounded to single precision, scaled and cut off behind the point.
///
/// The product with `scale` is the one that single-precision arithmetic gives
/// where `scale` is a power of two. The bounds on the arguments keep every
/// intermediate value within 64 bits.
pub fn quotient_scaled(n: u64, d: u64, scale: u64) -> (r: u64)
    requires
        0 < d <= DENOMINATOR_MAX,
        n <= NUMERATOR_MAX,
        scale <= SCALE_MAX,
    ensures
        r == quotient_floor(n as nat, d as nat, scale as nat),
{
    let q: u64 = n / d;
    proof {
        lemma_fundamental_div_mod(n as int, d as int);
        lemma2_to64();
    }
    if q >= EXACT_LIMIT {
        let unit: u64 = spacing_of(q);
        proof {
            assert(d * 0x100_0000 <= d * q) by (nonlinear_arith)
                requires
                    q >= 0x100_0000,
            ;
            assert(places(n as nat, d as nat) == 0);
            assert(d * (unit * 0x80_0000) <= d * q) by (nonlinear_arith)
                requires
                    unit * 0x80_0000 <= q,
            ;
            assert((d * unit) * 0x80_0000 == d * (unit * 0x80_0000)) by (nonlinear_arith);
            assert(d * unit >= 1) by (nonlinear_arith)
                requires
                    d >= 1,
                    unit >= 1,
            ;
        }
        let step: u64 = d * unit;
        let m: u64 = round_div(n, step);
        proof {
            lemma_div_denominator(n as int, d as int, unit as int);
            assert(n / step == q / unit);
            assert((q / unit) * unit <= q) by {
                lemma_fundamental_div_mod(q as int, unit as int);
                assert(unit * (q / unit) == (q / unit) * unit) by (nonlinear_arith);
            }
            assert(m * unit <= (q / unit) * unit + unit) by (nonlinear_arith)
                requires
                    m <= q / unit + 1,
            ;
            assert(unit <= q);
            assert(scale * (m * unit) <= 128 * (m * unit)) by (nonlinear_arith)
                requires
                    scale <= 128,
            ;
            let u: nat = spacing((n as nat) / (d as nat));
            let p: nat = pow2(places(n as nat, d as nat));
            assert(u == unit && p == 1);
            assert(n * p == n && (d as nat) * u == step) by (nonlinear_arith)
                requires
                    p == 1,
                    u == unit,
                    step == d * unit,
            ;
            assert(scale * (m * unit) / 1 == scale * (m * unit));
        }
        scale * (m * unit)
    } else {
        proof {
            spacing_bounds(q as nat);
            assert(n < d * 0x100_0000) by (nonlinear_arith)
                requires
                    n == d * q + n % d,
                    n % d < d,
                    q < 0x100_0000,
            ;
        }
        let bound: u64 = d * 0x80_0000;
        let mut scaled: u64 = n;
        let mut power: u64 = 1;
        let ghost mut s: nat = 0;
        while 0 < scaled && scaled < bound
            invariant
                bound == d * 0x80_0000,
                0 < d <= DENOMINATOR_MAX,
                scaled == n * power,
                power == pow2(s),
                power >= 1,
                scaled < 2 * bound,
                places(n as nat, d as nat) == s + places(scaled as nat, d as nat),
            decreases
                (if scaled < bound {
                    bound - scaled
                } else {
                    0
                }),
        {
            proof {
                lemma_pow2_unfold(s + 1);
                assert(n * (power * 2) == (n * power) * 2) by (nonlinear_arith);
                assert(power <= n * power) by (nonlinear_arith)
                    requires
                        n * power > 0,
                        power >= 1,
                ;
                s = s + 1;
            }
            scaled = scaled * 2;
            power = power * 2;
        }
        let m: u64 = round_div(scaled, d);
        proof {
            assert(places(scaled as nat, d as nat) == 0);
            assert(scaled / d <= 0x100_0000) by {
                lemma_fundamental_div_mod(scaled as int, d as int);
                assert(d * (scaled / d) <= scaled);
                assert(scaled / d <= 0x100_0000) by (nonlinear_arith)
                    requires
                        d * (scaled / d) < d * 0x100_0000,
                        d > 0,
                ;
            }
            assert(scale * m <= 128 * 0x100_0001) by (nonlinear_arith)
                requires
                    scale <= 128,
                    m <= 0x100_0001,
            ;
            let u: nat = spacing((n as nat) / (d as nat));
            assert(u == 1 && places(n as nat, d as nat) == s);
            assert((d as nat) * u == d && m * u == m) by (nonlinear_arith)
                requires
                    u == 1,
            ;
        }
        scale * m / power
    }
}

/// Conversion to `u32` that stops at the largest `u32`.
pub fn saturate_u32(x: u64) -> (r: u32)
    ensures
        r == saturate(x as nat),
{
    if x > 0xffff_ffff {
        0xffff_ffff
    } else {
        x as u32
    }
}

} // verus!
