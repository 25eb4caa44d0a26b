use si5351::encoder::{
    multisynth_parameters, pack, pll_parameters, register_writes, unpack,
};
use si5351::{Parameters, RegisterWrite};

#[test]
fn pll_parameters_exact_values() {
    assert_eq!(
        pll_parameters(36, 0, 1_048_575),
        Parameters { p1: 4096, p2: 0, p3: 1_048_575 }
    );
    assert_eq!(
        pll_parameters(35, 880_803, 1_048_575),
        Parameters { p1: 4075, p2: 545_259, p3: 1_048_575 }
    );
    assert_eq!(
        pll_parameters(24, 524_287, 1_048_575),
        Parameters { p1: 128 * 24 + 63 - 512, p2: 128 * 524_287 - 1_048_575 * 63, p3: 1_048_575 }
    );
    assert_eq!(pll_parameters(4, 1, 2), Parameters { p1: 64, p2: 0, p3: 2 });
}

#[test]
fn pll_parameters_wrap_where_they_do_not_fit() {
    assert_eq!(pll_parameters(0, 0, 1_048_575).p1, 0xffff_fe00);
    assert_eq!(pll_parameters(3, 0, 1_048_575).p1, 0xffff_ff80);
    assert_eq!(pll_parameters(4, 0, 1_048_575).p1, 0);
    // The single-precision ratio of this numerator is 127, one more than the
    // exact quotient allows, so the numerator comes out one below zero.
    assert_eq!(
        pll_parameters(36, 1_040_383, 1_048_575),
        Parameters { p1: 128 * 36 + 127 - 512, p2: 0xffff_ffff, p3: 1_048_575 }
    );
    let p = pll_parameters(255, u32::MAX, 1);
    assert_eq!(p.p1, (128u32 * 255).wrapping_add(u32::MAX).wrapping_sub(512));
    assert_eq!(p.p2, 128u32.wrapping_mul(u32::MAX).wrapping_sub(u32::MAX));
    assert_eq!(p.p3, 1);
}

#[test]
fn pll_parameters_follow_unchecked_machine_arithmetic() {
    let mut seed: u64 = 99;
    for _ in 0..100_000 {
        seed = seed.wrapping_mul(6364136223846793005).wrapping_add(1442695040888963407);
        let mult = (seed >> 56) as u8;
        let num = ((seed >> 20) & 0xf_ffff) as u32;
        let ratio = (128f32 * ((num as f32) / (1_048_575 as f32))) as u32;
        let p = pll_parameters(mult, num, 1_048_575);
        assert_eq!(p.p1, (128u32 * mult as u32).wrapping_add(ratio).wrapping_sub(512));
        assert_eq!(p.p2, 128u32.wrapping_mul(num).wrapping_sub(1_048_575u32.wrapping_mul(ratio)));
        assert_eq!(p.p3, 1_048_575);
    }
}

#[test]
fn multisynth_parameters_exact_values() {
    assert_eq!(multisynth_parameters(90), Parameters { p1: 11_008, p2: 0, p3: 1 });
    assert_eq!(multisynth_parameters(64), Parameters { p1: 7_680, p2: 0, p3: 1 });
    assert_eq!(multisynth_parameters(4), Parameters { p1: 0, p2: 0, p3: 1 });
}

#[test]
fn multisynth_parameters_wrap_where_they_do_not_fit() {
    assert_eq!(multisynth_parameters(0).p1, 0xffff_fe00);
    assert_eq!(multisynth_parameters(2).p1, 0xffff_ff00);
    assert_eq!(multisynth_parameters(900_000_000).p1, 900_000_000u32.wrapping_mul(128).wrapping_sub(512));
    assert_eq!(multisynth_parameters(0x0200_0000).p1, 0xffff_fe00);
}

#[test]
fn pack_places_every_field() {
    let bytes = pack(Parameters { p1: 0x3_5a_c4, p2: 0x9_12_34, p3: 0xb_00_78 }, 0);
    assert_eq!(bytes, [0x0b, 0x78, 0x03, 0x5a, 0xc4, 0xb9, 0x12, 0x34]);
}

#[test]
fn pack_byte_0_holds_bits_16_to_23_of_p3() {
    assert_eq!(pack(Parameters { p1: 0, p2: 0, p3: 0x00ab_0000 }, 0)[0], 0xab);
    assert_eq!(pack(Parameters { p1: 0, p2: 0, p3: 0x0000_ff00 }, 0)[0], 0x00);
    assert_eq!(pack(Parameters { p1: 0, p2: 0, p3: 0xff00_ffff }, 0)[0], 0x00);
    assert_eq!(pack(Parameters { p1: 0, p2: 0, p3: 1_048_575 }, 0)[0], 0x0f);
}

#[test]
fn pack_merges_the_prescaler_into_byte_2() {
    let p = Parameters { p1: 0x2_00_00, p2: 0, p3: 1 };
    assert_eq!(pack(p, 0)[2], 0x02);
    assert_eq!(pack(p, 0x40)[2], 0x42);
    assert_eq!(pack(p, 0xc0)[2], 0xc2);
    assert_eq!(pack(p, 0x01)[2], 0x03);
}

#[test]
fn pack_of_the_pll_parameters_for_ten_megahertz() {
    let bytes = pack(Parameters { p1: 4096, p2: 0, p3: 1_048_575 }, 0);
    assert_eq!(bytes, [0x0f, 0xff, 0x00, 0x10, 0x00, 0xf0, 0x00, 0x00]);
}

#[test]
fn pack_ignores_bits_that_have_no_register() {
    let bytes = pack(Parameters { p1: 0xfffc_0000, p2: 0xfff0_0000, p3: 0xff00_ff00 }, 0);
    assert_eq!(bytes, [0, 0, 0, 0, 0, 0, 0, 0]);
}

#[test]
fn unpack_reads_every_field() {
    let p = unpack(&[0x0b, 0x78, 0x03, 0x5a, 0xc4, 0xb9, 0x12, 0x34]);
    assert_eq!(p, Parameters { p1: 0x3_5a_c4, p2: 0x9_12_34, p3: 0xb_00_78 });
    let p = unpack(&[0xff, 0, 0xfc, 0, 0, 0, 0, 0]);
    assert_eq!(p, Parameters { p1: 0, p2: 0, p3: 0 });
}

fn survives(p: Parameters, r_div: u8) -> bool {
    p.p1 < 0x4_0000
        && (r_div & 3) & !(((p.p1 >> 16) & 3) as u8) == 0
        && p.p2 < 0x10_0000
        && p.p3 < 0x10_0000
        && p.p3 & 0xff00 == 0
}

#[test]
fn round_trip_holds_where_the_triple_survives_packing() {
    let mut seed: u64 = 7;
    let mut kept = 0;
    for _ in 0..200_000 {
        seed = seed.wrapping_mul(6364136223846793005).wrapping_add(1442695040888963407);
        let p1 = ((seed >> 8) & 0x3_ffff) as u32;
        let p2 = ((seed >> 26) & 0xf_ffff) as u32;
        let p3 = (((seed >> 46) & 0xf) << 16 | (seed >> 50) & 0xff) as u32;
        let r_div = ((seed >> 58) << 2) as u8;
        let p = Parameters { p1, p2, p3 };
        assert!(survives(p, r_div));
        assert_eq!(unpack(&pack(p, r_div)), p);
        kept += 1;
    }
    assert_eq!(kept, 200_000);
}

#[test]
fn round_trip_fails_exactly_where_the_triple_does_not_survive() {
    let mut seed: u64 = 11;
    let mut lost = 0;
    for _ in 0..200_000 {
        seed = seed.wrapping_mul(6364136223846793005).wrapping_add(1442695040888963407);
        let p = Parameters {
            p1: ((seed >> 4) & 0xf_ffff) as u32,
            p2: ((seed >> 24) & 0x1f_ffff) as u32,
            p3: ((seed >> 40) & 0x1f_ffff) as u32,
        };
        let r_div = (seed >> 56) as u8;
        assert_eq!(unpack(&pack(p, r_div)) == p, survives(p, r_div));
        if !survives(p, r_div) {
            lost += 1;
        }
    }
    assert!(lost > 0);
}

#[test]
fn round_trip_loses_the_bits_that_have_no_register() {
    let p = Parameters { p1: 0x4_0000, p2: 0, p3: 1 };
    assert_eq!(unpack(&pack(p, 0)), Parameters { p1: 0, p2: 0, p3: 1 });
    let p = Parameters { p1: 0, p2: 0, p3: 0x100 };
    assert_eq!(unpack(&pack(p, 0)), Parameters { p1: 0, p2: 0, p3: 0 });
    let p = Parameters { p1: 0, p2: 0, p3: 1_048_575 };
    assert_eq!(unpack(&pack(p, 0)), Parameters { p1: 0, p2: 0, p3: 0xf_00ff });
    let p = Parameters { p1: 0, p2: 0x10_0000, p3: 1 };
    assert_eq!(unpack(&pack(p, 0)), Parameters { p1: 0, p2: 0, p3: 1 });
    let p = Parameters { p1: 0, p2: 0, p3: 1 };
    assert_eq!(unpack(&pack(p, 0x01)), Parameters { p1: 0x1_0000, p2: 0, p3: 1 });
}

#[test]
fn register_writes_are_eight_ascending_two_byte_writes() {
    let bytes = [0x10, 0x11, 0x12, 0x13, 0x14, 0x15, 0x16, 0x17];
    let writes = register_writes(26, &bytes);
    assert_eq!(writes.len(), 8);
    for (i, w) in writes.iter().enumerate() {
        assert_eq!(*w, RegisterWrite { register: 26 + i as u8, value: bytes[i] });
        assert_eq!(w.bytes(), [26 + i as u8, bytes[i]]);
        assert_eq!(w.bytes().len(), 2);
    }
}

#[test]
fn register_writes_reach_the_last_register() {
    let writes = register_writes(248, &[1, 2, 3, 4, 5, 6, 7, 8]);
    assert_eq!(writes[0], RegisterWrite { register: 248, value: 1 });
    assert_eq!(writes[7], RegisterWrite { register: 255, value: 8 });
}
