//! Spectrometer output format.
//!
//! The spectrometer writes each power value as a 64-bit word in a
//! "floating point" format: the 8 most significant bits hold an exponent of 4,
//! the other 56 bits a mantissa. The value is the mantissa times 4 to the
//! exponent.

use vstd::prelude::*;
use vstd::arithmetic::power2::pow2;

verus! {

/// Exponent field (the 8 most significant bits) of a spectrometer word.
pub open spec fn word_exponent(x: u64) -> int {
    x as int / pow2(56) as int
}

/// Mantissa field (the 56 least significant bits) of a spectrometer word.
pub open spec fn word_mantissa(x: u64) -> int {
    x as int % pow2(56) as int
}

/// Shifting left by `s` bits multiplies by 2^s, dropping what goes past 64 bits.
proof fn lemma_shl_wraps(v: u64, s: u64)
    requires
        s < 64,
    ensures
        (v << s) as int == (v as int * pow2(s as nat) as int) % (pow2(64) as int),
{
    vstd::arithmetic::power2::lemma2_to64();
    vstd::arithmetic::power2::lemma2_to64_rest();
    if s == 0 {
        assert(v << 0u64 == v) by (bit_vector);
        vstd::arithmetic::div_mod::lemma_small_mod(v as nat, pow2(64));
        return;
    }
    let k = (64 - s) as u64;
    vstd::bits::lemma_u64_pow2_no_overflow(k as nat);
    vstd::bits::lemma_u64_pow2_no_overflow(s as nat);
    let mask = (pow2(k as nat) - 1) as u64;
    let lo = v & mask;
    vstd::bits::lemma_u64_low_bits_mask_is_mod(v, k as nat);
    assert(lo == v % (pow2(k as nat) as u64));
    // the bits that the shift drops do not matter
    assert(1u64 << k == pow2(k as nat)) by {
        vstd::bits::lemma_u64_shl_is_mul(1, k);
    }
    assert(mask == ((1u64 << k) - 1) as u64);
    assert(v << s == (v & (((1u64 << k) - 1) as u64)) << s) by (bit_vector)
        requires
            s < 64,
            k == 64 - s,
    ;
    // what is left does not overflow
    vstd::arithmetic::div_mod::lemma_fundamental_div_mod(v as int, pow2(k as nat) as int);
    vstd::arithmetic::power2::lemma_pow2_adds(k as nat, s as nat);
    assert(lo as int * pow2(s as nat) < pow2(64)) by (nonlinear_arith)
        requires
            lo < pow2(k as nat),
            pow2(k as nat) * pow2(s as nat) == pow2(64),
            pow2(s as nat) > 0,
    ;
    vstd::bits::lemma_u64_shl_is_mul(lo, s);
    let hi = v as int / pow2(k as nat) as int;
    assert(v as int * pow2(s as nat) == pow2(64) * hi + lo as int * pow2(s as nat)) by (nonlinear_arith)
        requires
            v as int == pow2(k as nat) * hi + lo as int,
            pow2(k as nat) * pow2(s as nat) == pow2(64),
    ;
    vstd::arithmetic::div_mod::lemma_fundamental_div_mod_converse(
        v as int * pow2(s as nat),
        pow2(64) as int,
        hi,
        lo as int * pow2(s as nat),
    );
    assert(lo as int * pow2(s as nat) >= 0) by (nonlinear_arith)
        requires
            lo >= 0,
            pow2(s as nat) > 0,
    ;
}

/// Decodes a spectrometer word: the mantissa times 4 to the exponent, modulo
/// 2^64.
///
/// Exponents of 32 or more cannot be decoded (the shift would take the whole
/// word).
pub fn decode_word(x: u64) -> (r: u64)
    requires
        word_exponent(x) < 32,
    ensures
        r as int == (word_mantissa(x) * pow2((2 * word_exponent(x)) as nat)) % (pow2(64) as int),
{
    proof {
        vstd::arithmetic::power2::lemma2_to64();
        vstd::arithmetic::power2::lemma2_to64_rest();
    }
    assert(x >> 56u64 == x / 0x100_0000_0000_0000) by (bit_vector);
    assert(x & 0xff_ffff_ffff_ffff == x % 0x100_0000_0000_0000) by (bit_vector);
    let exponent = (x >> 56u64) as u8;
    let value = x & 0xff_ffff_ffff_ffff;
    let shift = 2 * exponent;
    proof {
        lemma_shl_wraps(value, shift as u64);
    }
    value << (shift as u64)
}

} // verus!
