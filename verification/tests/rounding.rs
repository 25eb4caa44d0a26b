use si5351::encoder::ratio;
use si5351::planner::fraction_numerator;
use si5351::rounding::{quotient_scaled, round_div, saturate_u32, spacing_of, to_single};

/// A small generator of well-spread 64-bit values.
struct Lcg(u64);

impl Lcg {
    fn next(&mut self) -> u64 {
        self.0 = self.0.wrapping_mul(6364136223846793005).wrapping_add(1442695040888963407);
        let mut x = self.0;
        x ^= x >> 33;
        x = x.wrapping_mul(0xff51afd7ed558ccd);
        x ^= x >> 33;
        x
    }

    /// A value of a random width up to `bits` bits.
    fn sized(&mut self, bits: u32) -> u64 {
        let width = (self.next() % (bits as u64 + 1)) as u32;
        if width == 0 {
            0
        } else {
            self.next() >> (64 - width)
        }
    }
}

fn hardware_numerator(remainder: u32, reference: u32) -> u32 {
    let f = (remainder as f32) * (1048575 as f32) / (reference as f32);
    f as u32
}

fn hardware_ratio(num: u32, denom: u32) -> u32 {
    (128f32 * ((num as f32) / (denom as f32))) as u32
}

#[test]
fn round_div_rounds_to_nearest() {
    assert_eq!(round_div(7, 2), 4);
    assert_eq!(round_div(10, 4), 2);
    assert_eq!(round_div(14, 4), 4);
    assert_eq!(round_div(9, 4), 2);
    assert_eq!(round_div(11, 4), 3);
    assert_eq!(round_div(0, 5), 0);
    assert_eq!(round_div(u64::MAX, 1), u64::MAX);
    assert_eq!(round_div(u64::MAX, u64::MAX), 1);
    assert_eq!(round_div(u64::MAX - 1, u64::MAX), 1);
}

#[test]
fn round_div_sends_ties_to_even() {
    assert_eq!(round_div(1, 2), 0);
    assert_eq!(round_div(3, 2), 2);
    assert_eq!(round_div(5, 2), 2);
    assert_eq!(round_div(15, 6), 2);
    assert_eq!(round_div(21, 6), 4);
}

#[test]
fn spacing_doubles_with_every_bit_above_24() {
    assert_eq!(spacing_of(0), 1);
    assert_eq!(spacing_of(0xff_ffff), 1);
    assert_eq!(spacing_of(0x100_0000), 2);
    assert_eq!(spacing_of(0x1ff_ffff), 2);
    assert_eq!(spacing_of(0x200_0000), 4);
    assert_eq!(spacing_of(u32::MAX as u64), 256);
    assert_eq!(spacing_of(u64::MAX), 1 << 40);
}

#[test]
fn to_single_keeps_small_integers() {
    for x in [0u64, 1, 2, 1000, 1_048_575, 0xff_ffff] {
        assert_eq!(to_single(x), x);
    }
}

#[test]
fn to_single_exact_values() {
    assert_eq!(to_single(0x100_0001), 0x100_0000);
    assert_eq!(to_single(0x100_0003), 0x100_0004);
    assert_eq!(to_single(0x100_0002), 0x100_0002);
    assert_eq!(to_single(25_000_000), 25_000_000);
    assert_eq!(to_single(900_000_001), 900_000_000);
    assert_eq!(to_single(u32::MAX as u64), 0x1_0000_0000);
    assert_eq!(to_single(1 << 63), 1 << 63);
}

#[test]
fn to_single_matches_hardware_conversion_of_u32() {
    let mut g = Lcg(1);
    for _ in 0..200_000 {
        let x = g.sized(32) as u32;
        assert_eq!(to_single(x as u64), (x as f32) as u64, "x = {}", x);
    }
    for x in (u32::MAX - 100_000)..=u32::MAX {
        assert_eq!(to_single(x as u64), (x as f32) as u64, "x = {}", x);
    }
    for x in 0x0ff_fff0u32..0x100_1000u32 {
        assert_eq!(to_single(x as u64), (x as f32) as u64, "x = {}", x);
    }
}

#[test]
fn to_single_matches_hardware_conversion_of_u64() {
    let mut g = Lcg(2);
    for _ in 0..200_000 {
        let x = g.sized(63);
        assert_eq!(to_single(x), (x as f32) as u64, "x = {}", x);
    }
}

#[test]
fn to_single_matches_hardware_product() {
    let mut g = Lcg(3);
    for _ in 0..200_000 {
        let a = g.sized(32) as u32;
        let product = (a as f32) * (1048575 as f32);
        assert_eq!(to_single(to_single(a as u64) * 1_048_575), product as u64, "a = {}", a);
    }
}

#[test]
fn quotient_scaled_exact_values() {
    assert_eq!(quotient_scaled(0, 7, 1), 0);
    assert_eq!(quotient_scaled(7, 7, 1), 1);
    assert_eq!(quotient_scaled(1, 3, 128), 42);
    assert_eq!(quotient_scaled(2, 3, 128), 85);
    assert_eq!(quotient_scaled(1_040_383, 1_048_575, 128), 127);
    assert_eq!(quotient_scaled(1_048_575, 1_048_575, 128), 128);
    assert_eq!(quotient_scaled(1 << 32, 1, 128), 1 << 39);
    assert_eq!(quotient_scaled(0x20_0000_0000_0000, 1, 1), 0x20_0000_0000_0000);
}

#[test]
fn quotient_scaled_matches_hardware_division() {
    let mut g = Lcg(4);
    for _ in 0..300_000 {
        let n = to_single(g.sized(53));
        let d = to_single(g.sized(32).max(1));
        let q = (n as f32) / (d as f32);
        assert_eq!(n as f32 as u64, n);
        assert_eq!(d as f32 as u64, d);
        assert_eq!(quotient_scaled(n, d, 1), q as u64, "n = {}, d = {}", n, d);
        assert_eq!(quotient_scaled(n, d, 128), (128f32 * q) as u64, "n = {}, d = {}", n, d);
    }
}

#[test]
fn saturate_u32_stops_at_the_largest_value() {
    assert_eq!(saturate_u32(0), 0);
    assert_eq!(saturate_u32(0xffff_ffff), 0xffff_ffff);
    assert_eq!(saturate_u32(0x1_0000_0000), 0xffff_ffff);
    assert_eq!(saturate_u32(u64::MAX), 0xffff_ffff);
    assert_eq!(saturate_u32(1 << 39), (1u64 << 39) as f32 as u32);
}

#[test]
fn fraction_numerator_exact_values() {
    assert_eq!(fraction_numerator(0, 25_000_000), 0);
    assert_eq!(fraction_numerator(21_000_000, 25_000_000), 880_803);
    assert_eq!(fraction_numerator(12_500_000, 25_000_000), 524_287);
    assert_eq!(fraction_numerator(24_999_999, 25_000_000), 1_048_575);
}

#[test]
fn fraction_numerator_matches_hardware_arithmetic() {
    let mut g = Lcg(5);
    for _ in 0..300_000 {
        let reference = (g.sized(32) as u32).max(1);
        let remainder = (g.next() % reference as u64) as u32;
        assert_eq!(
            fraction_numerator(remainder, reference),
            hardware_numerator(remainder, reference),
            "remainder = {}, reference = {}",
            remainder,
            reference
        );
    }
    for _ in 0..100_000 {
        let reference = 10_000_000 + (g.next() % 30_000_001) as u32;
        let remainder = (g.next() % reference as u64) as u32;
        assert_eq!(
            fraction_numerator(remainder, reference),
            hardware_numerator(remainder, reference)
        );
    }
    for _ in 0..100_000 {
        let reference = (g.sized(32) as u32).max(1);
        let remainder = g.sized(32) as u32;
        assert_eq!(
            fraction_numerator(remainder, reference),
            hardware_numerator(remainder, reference),
            "remainder = {}, reference = {}",
            remainder,
            reference
        );
    }
}

#[test]
fn ratio_exact_values() {
    assert_eq!(ratio(0, 1_048_575), 0);
    assert_eq!(ratio(524_287, 1_048_575), 63);
    assert_eq!(ratio(880_803, 1_048_575), 107);
    assert_eq!(ratio(1_048_575, 1_048_575), 128);
    assert_eq!(ratio(1_040_383, 1_048_575), 127);
    assert_eq!(ratio(u32::MAX, 1), u32::MAX);
}

#[test]
fn ratio_matches_hardware_arithmetic() {
    for num in 0..=1_048_575u32 {
        assert_eq!(ratio(num, 1_048_575), hardware_ratio(num, 1_048_575), "num = {}", num);
    }
    let mut g = Lcg(6);
    for _ in 0..300_000 {
        let num = g.sized(32) as u32;
        let denom = (g.sized(32) as u32).max(1);
        assert_eq!(ratio(num, denom), hardware_ratio(num, denom), "{} / {}", num, denom);
    }
}

#[test]
fn fraction_numerator_is_within_one_of_the_exact_quotient() {
    let mut g = Lcg(8);
    let mut off_by_one = 0;
    for _ in 0..300_000 {
        let reference = (g.sized(32) as u32).max(1);
        let remainder = (g.next() % reference as u64) as u32;
        let exact = remainder as u64 * 1_048_575 / reference as u64;
        let num = fraction_numerator(remainder, reference) as u64;
        assert!(num <= 1_048_575);
        assert!(exact <= num + 1 && num <= exact + 1, "{} / {}", remainder, reference);
        if num != exact {
            off_by_one += 1;
        }
    }
    // Single precision does leave the exact quotient now and then.
    assert!(off_by_one > 0);
}
