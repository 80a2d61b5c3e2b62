//! What the library reads out of a float.
//!
//! A float is held as its IEEE-754 double precision bit pattern: one sign
//! bit, eleven bits of exponent and fifty-two bits of fraction. Nothing here
//! does floating-point arithmetic: the functions below take the pattern
//! apart with integer operations.
use vstd::prelude::*;
use vstd::arithmetic::div_mod::lemma_basic_div;
use vstd::arithmetic::power2::{
    lemma2_to64, lemma2_to64_rest, lemma_pow2_adds, lemma_pow2_pos, lemma_pow2_strictly_increases,
    pow2,
};
use vstd::bits::{lemma_u64_shl_is_mul, lemma_u64_shr_is_div};

verus! {

/// The exponent field of a float, as it is stored.
pub open spec fn float_exponent(bits: u64) -> nat {
    ((bits / 0x10_0000_0000_0000) % 0x800) as nat
}

/// The fraction field of a float.
pub open spec fn float_fraction(bits: u64) -> nat {
    (bits % 0x10_0000_0000_0000) as nat
}

/// Whether the sign bit of a float is set.
pub open spec fn float_negative(bits: u64) -> bool {
    bits >= 0x8000_0000_0000_0000
}

/// Whether a float is a number: neither an infinity nor a NaN.
pub open spec fn float_finite(bits: u64) -> bool {
    float_exponent(bits) != 0x7ff
}

/// The whole part of the size of a finite float: the float without its
/// sign, rounded down to an integer.
///
/// A float with the stored exponent `e` above zero has the size
/// `(2^52 + fraction) * 2^(e - 1075)`. With `e` zero it is smaller than one.
pub open spec fn float_whole(bits: u64) -> nat
    recommends
        float_finite(bits),
{
    let e = float_exponent(bits);
    let significand = 0x10_0000_0000_0000 + float_fraction(bits);
    if e == 0 {
        0
    } else if e >= 1075 {
        significand * pow2((e - 1075) as nat)
    } else {
        significand / pow2((1075 - e) as nat)
    }
}

/// A float cut down to a byte: the low eight bits, in two's complement, of
/// the float rounded toward zero to an integer. An infinity or a NaN gives
/// zero.
pub open spec fn float_byte(bits: u64) -> u8 {
    if !float_finite(bits) {
        0
    } else if float_negative(bits) {
        ((-(float_whole(bits) as int)) % 256) as u8
    } else {
        (float_whole(bits) % 256) as u8
    }
}

/// A float cut down to a byte.
pub fn float_to_byte(bits: u64) -> (byte: u8)
    ensures
        byte == float_byte(bits),
{
    let e: u64 = (bits >> 52) & 0x7ff;
    let significand: u64 = (bits & 0xf_ffff_ffff_ffff) | 0x10_0000_0000_0000;
    let negative: bool = (bits >> 63) != 0;
    proof {
        assert((bits >> 52) & 0x7ff == (bits / 0x10_0000_0000_0000) % 0x800) by (bit_vector);
        assert((bits & 0xf_ffff_ffff_ffff) | 0x10_0000_0000_0000 == 0x10_0000_0000_0000 + bits
            % 0x10_0000_0000_0000) by (bit_vector);
        assert(((bits >> 63) != 0) == (bits >= 0x8000_0000_0000_0000)) by (bit_vector);
        assert(e == float_exponent(bits));
        assert(significand == 0x10_0000_0000_0000 + float_fraction(bits));
        assert(significand < 0x20_0000_0000_0000);
        lemma2_to64();
        lemma2_to64_rest();
    }
    if e == 0x7ff || e == 0 {
        return 0;
    }
    let low: u64 = if e >= 1083 {
        proof {
            let k = (e - 1083) as nat;
            lemma_pow2_adds(8, k);
            lemma_pow2_pos(k);
            assert(float_whole(bits) == (significand * pow2(k)) * 256) by (nonlinear_arith)
                requires
                    float_whole(bits) == significand * pow2((e - 1075) as nat),
                    pow2((e - 1075) as nat) == 256 * pow2(k),
            ;
            assert(((significand * pow2(k)) * 256) % 256 == 0) by (nonlinear_arith);
        }
        0
    } else if e >= 1075 {
        let k: u64 = e - 1075;
        proof {
            assert(pow2(k as nat) <= 128) by {
                lemma2_to64();
            }
            assert(significand * pow2(k as nat) <= 0x20_0000_0000_0000 * 128) by (nonlinear_arith)
                requires
                    significand < 0x20_0000_0000_0000,
                    pow2(k as nat) <= 128,
            ;
            lemma_u64_shl_is_mul(significand, k);
            let shifted = significand << k;
            assert(shifted & 0xff == shifted % 256) by (bit_vector);
        }
        (significand << k) & 0xff
    } else if e < 1023 {
        proof {
            let k = (1075 - e) as nat;
            if k > 53 {
                lemma_pow2_strictly_increases(53, k);
            }
            lemma_basic_div(significand as int, pow2(k) as int);
        }
        0
    } else {
        let k: u64 = 1075 - e;
        proof {
            lemma_u64_shr_is_div(significand, k);
            let shifted = significand >> k;
            assert(shifted & 0xff == shifted % 256) by (bit_vector);
        }
        (significand >> k) & 0xff
    };
    assert(low == float_whole(bits) % 256);
    if negative {
        ((256 - low) % 256) as u8
    } else {
        low as u8
    }
}

} // verus!
