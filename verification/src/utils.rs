use vstd::prelude::*;

verus! {

/// The value of bit `i` of `x`.
pub open spec fn bit_of(x: u64, i: u64) -> bool {
    (x >> i) & 1 == 1
}

/// Two's-complement comparison of 64-bit words: `a < b` when both are read as
/// signed numbers.
pub open spec fn signed_less_than_spec(a: u64, b: u64) -> bool {
    if a >= 0x8000_0000_0000_0000 && b >= 0x8000_0000_0000_0000 {
        a < b
    } else if a < 0x8000_0000_0000_0000 && b < 0x8000_0000_0000_0000 {
        a < b
    } else {
        a >= 0x8000_0000_0000_0000
    }
}

/// Compares two 64-bit words as signed numbers, by their top bits and the 63 bits
/// below them.
pub fn signed_less_than(a: u64, b: u64) -> (r: bool)
    ensures
        r == signed_less_than_spec(a, b),
        r == ((a as i64) < (b as i64)),
{
    let sa = a >> 63u64;
    let sb = b >> 63u64;
    let la = a << 1u64;
    let lb = b << 1u64;
    proof {
        assert((sa == 1 <==> a >= 0x8000_0000_0000_0000) && (sb == 1 <==> b >= 0x8000_0000_0000_0000)
            && (sa == 0 <==> a < 0x8000_0000_0000_0000) && (sb == 0 <==> b < 0x8000_0000_0000_0000)
            && ((sa == sb) ==> ((la > lb) == (a > b) && (la < lb) == (a < b)))) by (bit_vector)
            requires sa == a >> 63u64, sb == b >> 63u64, la == a << 1u64, lb == b << 1u64;
        assert(((a as i64) < (b as i64)) == signed_less_than_spec(a, b)) by (bit_vector);
    }
    if sa == 1 && sb == 1 {
        la < lb
    } else if sa == 0 && sb == 0 {
        la < lb
    } else {
        sa == 1
    }
}

/// Sign extension of the field `a[sign_bit:0]` to 64 bits: when bit `sign_bit` is
/// set every bit above it becomes one, otherwise every bit above it becomes zero.
pub open spec fn sext_spec(a: u64, sign_bit: u64) -> u64
    recommends
        sign_bit < 64,
{
    if bit_of(a, sign_bit) {
        a | (0xffff_ffff_ffff_ffffu64 << sign_bit)
    } else {
        a & (0xffff_ffff_ffff_ffffu64 >> (63 - sign_bit) as u64)
    }
}

/// Sign-extends `a` from bit `sign_bit`.
pub fn sext(a: u64, sign_bit: usize) -> (r: u64)
    requires
        sign_bit < 64,
    ensures
        r == sext_spec(a, sign_bit as u64),
{
    let sb: u32 = sign_bit as u32;
    if a.wrapping_shr(sb) & 0x1 == 0x1 {
        a | 0xffff_ffff_ffff_ffff_u64.wrapping_shl(sb)
    } else {
        a & 0xffff_ffff_ffff_ffff_u64.wrapping_shr(63 - sb)
    }
}

/// Arithmetic right shift of `a` by `s` places (`s < 64`): the vacated top bits
/// are copies of bit 63.
pub open spec fn ashr_spec(a: u64, s: u64) -> u64
    recommends
        s < 64,
{
    if bit_of(a, 63) {
        (a >> s) | (0xffff_ffff_ffff_ffffu64 << (63 - s) as u64)
    } else {
        a >> s
    }
}

/// Arithmetic right shift of `a` by `b mod 64` places.
pub fn sra64(a: u64, b: u64) -> (r: u64)
    ensures
        r == ashr_spec(a, b % 64),
{
    let bs: u32 = b as u32;
    proof {
        assert((bs % 64) as u64 == b % 64) by (bit_vector)
            requires bs == b as u32;
        assert(63u32.wrapping_sub(bs) % 64 == 63 - (bs % 64)) by (bit_vector);
    }
    if a.wrapping_shr(63) == 1 {
        proof {
            assert(bit_of(a, 63)) by (bit_vector)
                requires a >> 63u64 == 1;
        }
        a.wrapping_shr(bs) | 0xffff_ffff_ffff_ffff_u64.wrapping_shl(63u32.wrapping_sub(bs))
    } else {
        proof {
            assert(!bit_of(a, 63)) by (bit_vector)
                requires a >> 63u64 != 1;
        }
        a.wrapping_shr(bs)
    }
}

/// Arithmetic right shift of a 32-bit word by `s < 32` places.
pub open spec fn ashr32_spec(a: u32, s: u32) -> u32 {
    if (a >> 31u32) == 1 {
        (a >> s) | (0xffff_ffffu32 << (31 - s) as u32)
    } else {
        a >> s
    }
}

/// Arithmetic right shift of a 32-bit word.
pub fn sra32(a: u32, b: u32) -> (r: u32)
    requires
        b < 32,
    ensures
        r == ashr32_spec(a, b),
{
    if (a >> 31u32) == 1 {
        (a >> b) | (0xffff_ffffu32 << (31 - b))
    } else {
        a >> b
    }
}

/// `a + b` modulo 2^64.
pub open spec fn wrap_add(a: u64, b: u64) -> u64 {
    ((a + b) % 0x1_0000_0000_0000_0000) as u64
}

/// `a - b` modulo 2^64.
pub open spec fn wrap_sub(a: u64, b: u64) -> u64 {
    ((a - b + 0x1_0000_0000_0000_0000) % 0x1_0000_0000_0000_0000) as u64
}

/// The wrapping operations of `u64` compute `wrap_add` and `wrap_sub`.
pub proof fn lemma_wrapping_u64(a: u64, b: u64)
    ensures
        vstd::wrapping::u64_specs::wrapping_add(a, b) == wrap_add(a, b),
        vstd::wrapping::u64_specs::wrapping_sub(a, b) == wrap_sub(a, b),
{
}

/// A mask of the `w` low bits, `(1 << w) - 1`, does not underflow.
pub proof fn lemma_low_mask(w: u64)
    by (bit_vector)
    requires
        w < 64,
    ensures
        (1u64 << w) >= 1,
{
}

/// A 32-bit shift count taken from a 64-bit value counts modulo 64 as the value does.
pub proof fn lemma_shift_count(x: u64)
    ensures
        ((x as u32) % 64) as u64 == x % 64,
{
    let y = x as u32;
    assert(((y % 64) as u64) == x % 64) by (bit_vector)
        requires y == x as u32;
}

} // verus!
