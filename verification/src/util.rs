//! Bit utilities: little-endian byte assembly, byte splitting, sign
//! extension, and the two's-complement correspondence between `u32` and
//! `i32` that the execution core relies on.

use vstd::prelude::*;
use vstd::arithmetic::power2::{pow2, lemma_pow2_strictly_increases, lemma2_to64};
use vstd::bits::{lemma_u32_shl_is_mul, lemma_u32_pow2_no_overflow};

verus! {

/// Little-endian value of two bytes.
pub open spec fn le16(b0: u8, b1: u8) -> u16 {
    (b0 as u16) | ((b1 as u16) << 8)
}

/// Little-endian value of four bytes.
pub open spec fn le32(b0: u8, b1: u8, b2: u8, b3: u8) -> u32 {
    (b0 as u32) | ((b1 as u32) << 8) | ((b2 as u32) << 16) | ((b3 as u32) << 24)
}

/// Low byte of a 16-bit value.
pub open spec fn lo16(v: u16) -> u8 {
    (v & 0xff) as u8
}

/// High byte of a 16-bit value.
pub open spec fn hi16(v: u16) -> u8 {
    ((v >> 8) & 0xff) as u8
}

/// Byte `k` (0 = least significant) of a 32-bit value.
pub open spec fn u32_byte(v: u32, k: u32) -> u8 {
    if k == 0 {
        (v & 0xff) as u8
    } else if k == 1 {
        ((v >> 8) & 0xff) as u8
    } else if k == 2 {
        ((v >> 16) & 0xff) as u8
    } else {
        ((v >> 24) & 0xff) as u8
    }
}

/// The value of the low `nbits` bits of `v`, read as an `nbits`-wide
/// two's-complement number.
pub open spec fn sign_ext_val(v: u32, nbits: u32) -> int
    recommends
        1 <= nbits <= 32,
{
    let m = (v as nat) % pow2(nbits as nat);
    if m >= pow2((nbits - 1) as nat) {
        m - pow2(nbits as nat)
    } else {
        m as int
    }
}

/// The value of a register word read as a two's-complement 32-bit number.
pub open spec fn s32(v: u32) -> int {
    if v >= 0x8000_0000 {
        v - 0x1_0000_0000
    } else {
        v as int
    }
}

/// The 32-bit word whose two's-complement value is `x` modulo 2^32.
pub open spec fn wrap32(x: int) -> u32 {
    (x % 0x1_0000_0000) as u32
}

/// Reinterpreting a register word as `i32` yields its two's-complement value.
pub broadcast proof fn lemma_u32_as_i32(v: u32)
    ensures
        (#[trigger] (v as i32)) as int == s32(v),
{
    assert(v < 0x8000_0000 ==> v as i32 == v as int) by (bit_vector);
    assert(v >= 0x8000_0000 ==> v as i32 == v - 0x1_0000_0000) by (bit_vector);
}

/// Reinterpreting an `i32` as a register word is inverted by `s32`.
pub broadcast proof fn lemma_i32_as_u32(x: i32)
    ensures
        s32(#[trigger] (x as u32)) == x as int,
{
    assert(x >= 0 ==> x as u32 == x as int) by (bit_vector);
    assert(x < 0 ==> x as u32 == x + 0x1_0000_0000) by (bit_vector);
}

/// Truncating a `u32` to `i32` and back is the identity.
pub broadcast proof fn lemma_u32_i32_roundtrip(v: u32)
    ensures
        (#[trigger] (v as i32)) as u32 == v,
{
    assert((v as i32) as u32 == v) by (bit_vector);
}

/// A five-bit mask yields a valid 32-bit shift amount.
pub broadcast proof fn lemma_mask5(x: u32)
    ensures
        (#[trigger] (x & 0x1f)) < 32,
{
    assert(x & 0x1f < 32) by (bit_vector);
}

/// A word is recovered from its own two's-complement value.
pub proof fn lemma_wrap32_of_value(v: u32)
    ensures
        wrap32(s32(v)) == v,
{
    if v >= 0x8000_0000 {
        vstd::arithmetic::div_mod::lemma_mod_multiples_vanish(-1, v as int, 0x1_0000_0000);
    }
    vstd::arithmetic::div_mod::lemma_small_mod(v as nat, 0x1_0000_0000);
}

/// Wrapping a value already within one word-width of zero.
pub proof fn lemma_wrap32_small(x: int)
    requires
        -0x1_0000_0000 <= x < 0x1_0000_0000,
    ensures
        wrap32(x) == if x >= 0 {
            x
        } else {
            x + 0x1_0000_0000
        },
{
    if x >= 0 {
        vstd::arithmetic::div_mod::lemma_small_mod(x as nat, 0x1_0000_0000);
    } else {
        vstd::arithmetic::div_mod::lemma_mod_multiples_vanish(1, x, 0x1_0000_0000);
        vstd::arithmetic::div_mod::lemma_small_mod((x + 0x1_0000_0000) as nat, 0x1_0000_0000);
    }
}

pub fn read_u16_from_byteslice(slice: &[u8]) -> (r: u16)
    requires
        slice@.len() >= 2,
    ensures
        r == le16(slice@[0], slice@[1]),
{
    (slice[0] as u16) | ((slice[1] as u16) << 8)
}

pub fn read_u32_from_byteslice(slice: &[u8]) -> (r: u32)
    requires
        slice@.len() >= 4,
    ensures
        r == le32(slice@[0], slice@[1], slice@[2], slice@[3]),
{
    (slice[0] as u32) | ((slice[1] as u32) << 8) | ((slice[2] as u32) << 16) | ((slice[3] as u32)
        << 24)
}

pub fn write_u16_to_byteslice(slice: &mut [u8], value: u16)
    requires
        old(slice)@.len() >= 2,
    ensures
        final(slice)@ == old(slice)@.update(0, lo16(value)).update(1, hi16(value)),
{
    slice[0] = (value & 0xff) as u8;
    slice[1] = ((value >> 8) & 0xff) as u8;
}

pub fn write_u32_to_byteslice(slice: &mut [u8], value: u32)
    requires
        old(slice)@.len() >= 4,
    ensures
        final(slice)@ == old(slice)@.update(0, u32_byte(value, 0)).update(
            1,
            u32_byte(value, 1),
        ).update(2, u32_byte(value, 2)).update(3, u32_byte(value, 3)),
{
    slice[0] = (value & 0xff) as u8;
    slice[1] = ((value >> 8) & 0xff) as u8;
    slice[2] = ((value >> 16) & 0xff) as u8;
    slice[3] = ((value >> 24) & 0xff) as u8;
}

pub fn sign_extend(x: i32, nbits: u32) -> (r: i32)
    requires
        1 <= nbits <= 32,
    ensures
        r as int == sign_ext_val(x as u32, nbits),
{
    if nbits == 32 {
        proof {
            lemma2_to64();
            lemma_i32_as_u32(x);
            assert((x as u32) as nat % pow2(32) == (x as u32) as nat);
            assert(pow2(31) == 0x8000_0000);
            assert(sign_ext_val(x as u32, 32) == s32(x as u32));
        }
        return x;
    }
    let ux: u32 = #[verifier::truncate] (x as u32);
    proof {
        lemma_u32_pow2_no_overflow(nbits as nat);
        lemma_u32_shl_is_mul(1u32, nbits);
        lemma_u32_pow2_no_overflow((nbits - 1) as nat);
        lemma_u32_shl_is_mul(1u32, (nbits - 1) as u32);
        lemma_pow2_strictly_increases((nbits - 1) as nat, nbits as nat);
        if nbits - 1 < 31 {
            lemma_pow2_strictly_increases((nbits - 1) as nat, 31);
        }
        lemma2_to64();
        assert(pow2((nbits - 1) as nat) <= 0x8000_0000);
    }
    let p: u32 = 1u32 << nbits;
    let half: u32 = 1u32 << (nbits - 1);
    let m: u32 = ux % p;
    proof {
        assert(p == pow2(nbits as nat));
        assert(half == pow2((nbits - 1) as nat));
        assert(m == (ux as nat) % pow2(nbits as nat));
    }
    if m >= half {
        let wide: i64 = (m as i64) - (p as i64);
        proof {
            assert(wide == m - p);
            assert(-0x8000_0000 <= wide < 0);
        }
        wide as i32
    } else {
        m as i32
    }
}

} // verus!
