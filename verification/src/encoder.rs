//! The register encoder: from a multiplier or divider to the parameter triple
//! (`p1`, `p2`, `p3`) of the chip, and from the triple to the eight bytes of its
//! parameter registers.

use vstd::prelude::*;
use vstd::arithmetic::div_mod::lemma_sub_mod_noop;
use crate::rounding::{quotient_floor, quotient_scaled, saturate, saturate_u32, single_of, to_single};

verus! {

/// One register write: a bus transaction of two bytes, the register's
/// address and the value to store there.
#[derive(Copy, Clone, Debug, PartialEq, Eq, Structural)]
pub struct RegisterWrite {
    pub register: u8,
    pub value: u8,
}

impl RegisterWrite {
    /// The two bytes of the bus transaction: the register's address, then
    /// the value.
    pub fn bytes(&self) -> (b: [u8; 2])
        ensures
            b@ == seq![self.register, self.value],
    {
        let b: [u8; 2] = [self.register, self.value];
        assert(b@ =~= seq![self.register, self.value]);
        b
    }
}

/// The chip's three-part form of a fractional multiplier or divider: integer
/// part, numerator and denominator of the fraction.
#[derive(Copy, Clone, Debug, PartialEq, Eq, Structural)]
pub struct Parameters {
    pub p1: u32,
    pub p2: u32,
    pub p3: u32,
}

/// `x` reduced to 32 bits, as unchecked machine arithmetic leaves it.
pub open spec fn wrap32(x: int) -> u32 {
    (x % 0x1_0000_0000) as u32
}

/// `floor(128 * num / denom)` evaluated in single precision: both operands
/// and the quotient rounded, the product with 128 exact.
pub open spec fn ratio_for(num: u32, denom: u32) -> u32
    recommends
        denom > 0,
{
    saturate(quotient_floor(single_of(num as nat), single_of(denom as nat), 128))
}

/// The parameter triple of a PLL that multiplies by `mult + num / denom`.
/// Values that do not fit in 32 bits wrap.
pub open spec fn pll_parameters_for(mult: u8, num: u32, denom: u32) -> Parameters
    recommends
        denom > 0,
{
    let ratio = ratio_for(num, denom);
    Parameters {
        p1: wrap32(128 * mult + ratio - 512),
        p2: wrap32(128 * num - denom * ratio),
        p3: denom,
    }
}

/// The parameter triple of an output stage that divides by the integer
/// `divider`. Values that do not fit in 32 bits wrap.
pub open spec fn multisynth_parameters_for(divider: u32) -> Parameters {
    Parameters { p1: wrap32(128 * divider - 512), p2: 0, p3: 1 }
}

/// The eight register bytes of a parameter triple, in the order of their
/// registers. `r_div` is the prescaler field; it is merged into byte 2.
///
/// | byte | holds                                       |
/// |------|---------------------------------------------|
/// | 0    | bits 16-23 of `p3`                          |
/// | 1    | bits 0-7 of `p3`                            |
/// | 2    | bits 16-17 of `p1`, or-ed with `r_div`      |
/// | 3    | bits 8-15 of `p1`                           |
/// | 4    | bits 0-7 of `p1`                            |
/// | 5    | bits 16-19 of `p3` above bits 16-19 of `p2` |
/// | 6    | bits 8-15 of `p2`                           |
/// | 7    | bits 0-7 of `p2`                            |
pub open spec fn packed(p: Parameters, r_div: u8) -> Seq<u8> {
    seq![
        ((p.p3 >> 16) & 0xff) as u8,
        (p.p3 & 0xff) as u8,
        ((p.p1 >> 16) & 0x03) as u8 | r_div,
        ((p.p1 >> 8) & 0xff) as u8,
        (p.p1 & 0xff) as u8,
        ((((p.p3 >> 16) & 0x0f) << 4) | ((p.p2 >> 16) & 0x0f)) as u8,
        ((p.p2 >> 8) & 0xff) as u8,
        (p.p2 & 0xff) as u8,
    ]
}

/// The parameter triple that eight register bytes hold: each field put
/// together from the bits that [`packed`] stores of it.
pub open spec fn unpacked(bytes: Seq<u8>) -> Parameters
    recommends
        bytes.len() == 8,
{
    Parameters {
        p1: (((bytes[2] & 0x03) as u32) << 16) | ((bytes[3] as u32) << 8) | (bytes[4] as u32),
        p2: (((bytes[5] & 0x0f) as u32) << 16) | ((bytes[6] as u32) << 8) | (bytes[7] as u32),
        p3: (((bytes[5] >> 4) as u32) << 16) | (bytes[1] as u32),
    }
}

/// What packing keeps of a triple: 18 bits of `p1` as long as the prescaler
/// field sets neither of the two low bits of byte 2 that `p1` leaves clear,
/// 20 bits of `p2`, and of `p3` the bits 0-7 and 16-19.
pub open spec fn survives_packing(p: Parameters, r_div: u8) -> bool {
    &&& p.p1 < 0x4_0000
    &&& (r_div & 0x03) & !(((p.p1 >> 16) & 0x03) as u8) == 0
    &&& p.p2 < 0x10_0000
    &&& p.p3 < 0x10_0000
    &&& p.p3 & 0xff00 == 0
}

/// The writes that store eight register bytes at `base` and the seven
/// addresses after it, in ascending order.
pub open spec fn writes_at(base: u8, bytes: Seq<u8>) -> Seq<RegisterWrite>
    recommends
        base <= 248,
        bytes.len() == 8,
{
    Seq::new(8, |i: int| RegisterWrite { register: (base + i) as u8, value: bytes[i] })
}

/// Unpacking the bytes of a packed triple gives the triple back exactly where
/// the triple survives packing, and nowhere else.
pub proof fn pack_round_trip(p: Parameters, r_div: u8)
    ensures
        unpacked(packed(p, r_div)) == p <==> survives_packing(p, r_div),
{
    let p1: u32 = p.p1;
    let p2: u32 = p.p2;
    let p3: u32 = p.p3;
    let b: Seq<u8> = packed(p, r_div);
    let b1: u8 = b[1];
    let b2: u8 = b[2];
    let b3: u8 = b[3];
    let b4: u8 = b[4];
    let b5: u8 = b[5];
    let b6: u8 = b[6];
    let b7: u8 = b[7];
    let q1: u32 = (((b2 & 0x03) as u32) << 16) | ((b3 as u32) << 8) | (b4 as u32);
    let q2: u32 = (((b5 & 0x0f) as u32) << 16) | ((b6 as u32) << 8) | (b7 as u32);
    let q3: u32 = (((b5 >> 4) as u32) << 16) | (b1 as u32);
    assert(unpacked(b) == Parameters { p1: q1, p2: q2, p3: q3 });
    assert(q1 == p1 <==> (p1 < 0x4_0000 && (r_div & 0x03) & !(((p1 >> 16) & 0x03) as u8) == 0))
        by (bit_vector)
        requires
            q1 == (((b2 & 0x03) as u32) << 16) | ((b3 as u32) << 8) | (b4 as u32),
            b2 == ((p1 >> 16) & 0x03) as u8 | r_div,
            b3 == ((p1 >> 8) & 0xff) as u8,
            b4 == (p1 & 0xff) as u8,
    ;
    assert(q2 == p2 <==> p2 < 0x10_0000) by (bit_vector)
        requires
            q2 == (((b5 & 0x0f) as u32) << 16) | ((b6 as u32) << 8) | (b7 as u32),
            b5 == ((((p3 >> 16) & 0x0f) << 4) | ((p2 >> 16) & 0x0f)) as u8,
            b6 == ((p2 >> 8) & 0xff) as u8,
            b7 == (p2 & 0xff) as u8,
    ;
    assert(q3 == p3 <==> (p3 < 0x10_0000 && p3 & 0xff00 == 0)) by (bit_vector)
        requires
            q3 == (((b5 >> 4) as u32) << 16) | (b1 as u32),
            b5 == ((((p3 >> 16) & 0x0f) << 4) | ((p2 >> 16) & 0x0f)) as u8,
            b1 == (p3 & 0xff) as u8,
    ;
}

/// A value of 32 bits passed through the checked cast of the `cast` crate.
///
/// Trusted: `cast::u32` applied to a `u32` is the promotion of a type to
/// itself, which cannot fail and returns its argument.
#[verifier::external_body]
fn checked_u32(x: u32) -> (r: u32)
    ensures
        r == x,
{
    cast::u32(x)
}

/// `floor(128 * num / denom)` in single precision.
pub fn ratio(num: u32, denom: u32) -> (r: u32)
    requires
        denom > 0,
    ensures
        r == ratio_for(num, denom),
{
    let n: u64 = to_single(num as u64);
    let d: u64 = to_single(denom as u64);
    saturate_u32(quotient_scaled(n, d, 128))
}

/// The parameter triple of a PLL that multiplies by `mult + num / denom`.
pub fn pll_parameters(mult: u8, num: u32, denom: u32) -> (p: Parameters)
    requires
        denom > 0,
    ensures
        p == pll_parameters_for(mult, num, denom),
{
    let ratio: u32 = ratio(num, denom);
    let whole: u32 = 128u32 * (mult as u32);
    let p1: u32 = checked_u32(whole.wrapping_add(ratio).wrapping_sub(512));
    let scaled: u32 = 128u32.wrapping_mul(num);
    let taken: u32 = denom.wrapping_mul(ratio);
    let p2: u32 = checked_u32(scaled.wrapping_sub(taken));
    proof {
        lemma_sub_mod_noop(128 * num, denom * ratio, 0x1_0000_0000);
        assert(scaled == (128 * num) % 0x1_0000_0000);
        assert(taken == (denom * ratio) % 0x1_0000_0000);
        assert(p2 == (scaled - taken) % 0x1_0000_0000);
    }
    Parameters { p1, p2, p3: denom }
}

/// The parameter triple of an output stage that divides by `divider`.
pub fn multisynth_parameters(divider: u32) -> (p: Parameters)
    ensures
        p == multisynth_parameters_for(divider),
{
    let p1: u32 = 128u32.wrapping_mul(divider).wrapping_sub(512);
    proof {
        lemma_sub_mod_noop(128 * divider, 512, 0x1_0000_0000);
        assert(p1 == ((128 * divider) % 0x1_0000_0000 - 512) % 0x1_0000_0000);
    }
    Parameters { p1, p2: 0, p3: 1 }
}

/// Packs a parameter triple and the prescaler field into the eight bytes of
/// the parameter registers.
pub fn pack(p: Parameters, r_div: u8) -> (bytes: [u8; 8])
    ensures
        bytes@ == packed(p, r_div),
{
    let p1: u32 = p.p1;
    let p2: u32 = p.p2;
    let p3: u32 = p.p3;
    let bytes: [u8; 8] = [
        ((p3 >> 16) & 0xff) as u8,
        (p3 & 0xff) as u8,
        ((p1 >> 16) & 0x03) as u8 | r_div,
        ((p1 >> 8) & 0xff) as u8,
        (p1 & 0xff) as u8,
        ((((p3 >> 16) & 0x0f) << 4) | ((p2 >> 16) & 0x0f)) as u8,
        ((p2 >> 8) & 0xff) as u8,
        (p2 & 0xff) as u8,
    ];
    assert(bytes@ =~= packed(p, r_div));
    bytes
}

/// Reads a parameter triple back from the eight bytes of the parameter
/// registers.
pub fn unpack(bytes: &[u8; 8]) -> (p: Parameters)
    ensures
        p == unpacked(bytes@),
{
    Parameters {
        p1: (((bytes[2] & 0x03) as u32) << 16) | ((bytes[3] as u32) << 8) | (bytes[4] as u32),
        p2: (((bytes[5] & 0x0f) as u32) << 16) | ((bytes[6] as u32) << 8) | (bytes[7] as u32),
        p3: (((bytes[5] >> 4) as u32) << 16) | (bytes[1] as u32),
    }
}

/// The eight writes that store `bytes` in the registers from `base` on, in
/// ascending order of address.
pub fn register_writes(base: u8, bytes: &[u8; 8]) -> (writes: Vec<RegisterWrite>)
    requires
        base <= 248,
    ensures
        writes@ == writes_at(base, bytes@),
        writes@.len() == 8,
        forall|i: int| 0 <= i < 8 ==> #[trigger] writes@[i].register == base + i,
        forall|i: int| 0 <= i < 8 ==> #[trigger] writes@[i].value == bytes@[i],
{
    let mut writes: Vec<RegisterWrite> = Vec::new();
    let mut offset: u8 = 0;
    while offset < 8
        invariant
            base <= 248,
            offset <= 8,
            writes@.len() == offset,
            forall|i: int|
                0 <= i < offset ==> writes@[i] == (RegisterWrite {
                    register: (base + i) as u8,
                    value: bytes@[i],
                }),
        decreases 8 - offset,
    {
        writes.push(RegisterWrite { register: base + offset, value: bytes[offset as usize] });
        offset = offset + 1;
    }
    assert(writes@ =~= writes_at(base, bytes@));
    writes
}

} // verus!
