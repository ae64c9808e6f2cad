//! Numeric casts between 64-bit integers and 32-bit IEEE 754 values, carried
//! as raw bit patterns so that the value domain stays within the integers.
//!
//! A binary32 bit pattern splits into a sign bit, an 8-bit biased exponent
//! and a 23-bit fraction.  A normal number with biased exponent `e` and
//! fraction `f` has magnitude `(2^23 + f) * 2^(e - 150)`.

use vstd::prelude::*;
use vstd::arithmetic::power2::pow2;
use vstd::arithmetic::power2::{lemma_pow2_adds, lemma_pow2_pos, lemma_pow2_strictly_increases};
use vstd::arithmetic::div_mod::{lemma_div_denominator, lemma_fundamental_div_mod};
use vstd::arithmetic::mul::{lemma_mul_inequality, lemma_mul_strict_inequality};

verus! {

broadcast use vstd::arithmetic::mul::lemma_mul_is_commutative;

/// The sign bit of a binary32 bit pattern.
pub open spec fn f32_is_neg(b: u32) -> bool {
    b as int / 0x80000000 == 1
}

/// The biased exponent field of a binary32 bit pattern.
pub open spec fn f32_exp(b: u32) -> int {
    (b as int / 0x800000) % 0x100
}

/// The fraction field of a binary32 bit pattern.
pub open spec fn f32_frac(b: u32) -> int {
    b as int % 0x800000
}

/// The magnitude of a finite binary32 value, truncated toward zero.
/// Subnormal values are below 1, so they truncate to 0.
pub open spec fn f32_trunc_mag(b: u32) -> int {
    let exp = f32_exp(b);
    let frac = f32_frac(b);
    if exp == 0 {
        0
    } else {
        let m = 0x800000 + frac;
        if exp >= 150 {
            m * pow2((exp - 150) as nat)
        } else {
            m / pow2((150 - exp) as nat) as int
        }
    }
}

/// The 64-bit integer that a binary32 value casts to: truncation toward
/// zero, saturating at the integer range, with non-numbers going to 0.
pub open spec fn f32_to_i64_spec(b: u32) -> i64 {
    let exp = f32_exp(b);
    if exp == 255 {
        if f32_frac(b) != 0 {
            0
        } else if f32_is_neg(b) {
            i64::MIN
        } else {
            i64::MAX
        }
    } else {
        let mag = f32_trunc_mag(b);
        if f32_is_neg(b) {
            if -mag < i64::MIN {
                i64::MIN
            } else {
                (-mag) as i64
            }
        } else {
            if mag > i64::MAX {
                i64::MAX
            } else {
                mag as i64
            }
        }
    }
}

/// The position of the most significant set bit: for `x >= 1`, the unique
/// `p` with `2^p <= x < 2^(p+1)`.
pub open spec fn msb_pos(x: int) -> int
    decreases x,
{
    if x < 2 {
        0
    } else {
        1 + msb_pos(x / 2)
    }
}

/// The binary32 bit pattern nearest to a 64-bit integer, ties going to the
/// even mantissa.  Integer magnitudes up to 2^24 are represented exactly;
/// larger magnitudes round in the lowest bits.
pub open spec fn i64_to_f32_spec(v: i64) -> u32 {
    if v == 0 {
        0
    } else {
        let sign: int = if v < 0 {
            0x80000000
        } else {
            0
        };
        let mag = if v < 0 {
            -(v as int)
        } else {
            v as int
        };
        let p = msb_pos(mag);
        if p <= 23 {
            let mant = mag * pow2((23 - p) as nat);
            (sign + (p + 127) * 0x800000 + (mant - 0x800000)) as u32
        } else {
            let pw = pow2((p - 23) as nat) as int;
            let q = mag / pw;
            let r = mag % pw;
            let q2 = if r * 2 > pw || (r * 2 == pw && q % 2 == 1) {
                q + 1
            } else {
                q
            };
            if q2 == 0x1000000 {
                (sign + (p + 1 + 127) * 0x800000 + (0x800000 - 0x800000)) as u32
            } else {
                (sign + (p + 127) * 0x800000 + (q2 - 0x800000)) as u32
            }
        }
    }
}

/// Computes a small power of two.
fn pow2_u64(e: u32) -> (r: u64)
    requires
        e <= 63,
    ensures
        r as int == pow2(e as nat),
{
    let mut r: u64 = 1;
    let mut k: u32 = 0;
    proof {
        vstd::arithmetic::power2::lemma2_to64();
    }
    while k < e
        invariant
            k <= e <= 63,
            r as int == pow2(k as nat),
        decreases e - k,
    {
        proof {
            vstd::arithmetic::power2::lemma2_to64();
            lemma_pow2_strictly_increases(k as nat + 1, 64);
            assert(pow2(k as nat + 1) == 2 * pow2(k as nat)) by {
                lemma_pow2_adds(1, k as nat);
            }
        }
        r = r * 2;
        k = k + 1;
    }
    r
}

/// `x / 2^p == 1` exactly when `2^p <= x < 2^(p+1)`.
proof fn lemma_msb_bounds(x: int)
    requires
        x >= 1,
    ensures
        msb_pos(x) >= 0,
        pow2(msb_pos(x) as nat) <= x < pow2((msb_pos(x) + 1) as nat),
    decreases x,
{
    vstd::arithmetic::power2::lemma2_to64();
    if x < 2 {
    } else {
        lemma_msb_bounds(x / 2);
        let m = msb_pos(x / 2);
        assert(pow2((m + 1) as nat) == 2 * pow2(m as nat)) by {
            lemma_pow2_adds(1, m as nat);
        }
        assert(pow2((m + 2) as nat) == 2 * pow2((m + 1) as nat)) by {
            lemma_pow2_adds(1, (m + 1) as nat);
        }
        lemma_fundamental_div_mod(x, 2);
    }
}

/// Casts a binary32 bit pattern to a 64-bit integer, truncating toward zero
/// and saturating at the integer range; non-numbers cast to 0.
pub fn f32_bits_to_i64(bits: u32) -> (r: i64)
    ensures
        r == f32_to_i64_spec(bits),
{
    let neg = bits / 0x80000000 == 1;
    let exp = (bits / 0x800000) % 0x100;
    let frac = bits % 0x800000;
    if exp == 255 {
        return if frac != 0 {
            0
        } else if neg {
            i64::MIN
        } else {
            i64::MAX
        };
    }
    if exp == 0 {
        return 0;
    }
    let m: u64 = (0x800000 + frac) as u64;
    assert(0x800000 <= m && m < 0x1000000);
    if exp >= 150 {
        let shift = exp - 150;
        if shift >= 41 {
            proof {
                vstd::arithmetic::power2::lemma2_to64();
                lemma_pow2_pos(shift as nat);
                if shift > 41 {
                    lemma_pow2_strictly_increases(41, shift as nat);
                }
                lemma_pow2_adds(23, 41);
                lemma_mul_inequality(pow2(41) as int, pow2(shift as nat) as int, m as int);
                lemma_mul_inequality(pow2(23) as int, m as int, pow2(41) as int);
                assert((m as int) * pow2(shift as nat) > 0x8000000000000000);
            }
            return if neg {
                i64::MIN
            } else {
                i64::MAX
            };
        }
        let pw = pow2_u64(shift);
        proof {
            vstd::arithmetic::power2::lemma2_to64();
            vstd::arithmetic::power2::lemma2_to64_rest();
            lemma_pow2_pos(shift as nat);
            assert(pw as int <= pow2(40)) by {
                if shift < 40 {
                    lemma_pow2_strictly_increases(shift as nat, 40);
                }
            }
            assert((m as int) * (pw as int) < 0x1000000 * 0x10000000000) by {
                lemma_mul_strict_inequality(m as int, 0x1000000, pw as int);
                lemma_mul_inequality(pw as int, 0x10000000000, 0x1000000);
            }
        }
        let mag = m * pw;
        if neg {
            if mag > 0x8000000000000000u64 {
                i64::MIN
            } else {
                (-(mag as i128)) as i64
            }
        } else {
            if mag > 0x7FFFFFFFFFFFFFFFu64 {
                i64::MAX
            } else {
                mag as i64
            }
        }
    } else {
        let shift = 150 - exp;
        if shift >= 24 {
            proof {
                vstd::arithmetic::power2::lemma2_to64();
                if shift > 24 {
                    lemma_pow2_strictly_increases(24, shift as nat);
                }
                vstd::arithmetic::div_mod::lemma_basic_div(m as int, pow2(shift as nat) as int);
            }
            return 0;
        }
        let pw = pow2_u64(shift);
        proof {
            lemma_pow2_pos(shift as nat);
        }
        let mag = m / pw;
        proof {
            vstd::arithmetic::div_mod::lemma_div_is_ordered_by_denominator(
                m as int,
                1,
                pw as int,
            );
        }
        if neg {
            -(mag as i64)
        } else {
            mag as i64
        }
    }
}

/// Casts a 64-bit integer to the nearest binary32 bit pattern, ties going to
/// the even mantissa.
pub fn i64_to_f32_bits(v: i64) -> (r: u32)
    ensures
        r == i64_to_f32_spec(v),
{
    if v == 0 {
        return 0;
    }
    let neg = v < 0;
    let mag: u64 = if neg {
        (-(v as i128)) as u64
    } else {
        v as u64
    };
    let ghost magi = mag as int;
    assert(magi >= 1);
    let mut p: u32 = 0;
    let mut t: u64 = mag;
    while t >= 2
        invariant
            t >= 1,
            msb_pos(magi) == p + msb_pos(t as int),
            t as int <= magi && magi < 0x10000000000000000,
            p <= 63,
        decreases t,
    {
        proof {
            lemma_msb_bounds(magi);
            lemma_msb_bounds(t as int);
            if p >= 63 {
                vstd::arithmetic::power2::lemma2_to64();
                assert(msb_pos(t as int) >= 1);
                assert(msb_pos(magi) >= 64);
                if msb_pos(magi) > 64 {
                    lemma_pow2_strictly_increases(64, msb_pos(magi) as nat);
                }
            }
        }
        t = t / 2;
        p = p + 1;
    }
    proof {
        assert(msb_pos(t as int) == 0);
        assert(msb_pos(magi) == p);
        lemma_msb_bounds(magi);
    }
    let sbit: u32 = if neg {
        0x80000000
    } else {
        0
    };
    if p <= 23 {
        let pw = pow2_u64(23 - p);
        proof {
            vstd::arithmetic::power2::lemma2_to64();
            lemma_pow2_pos((23 - p) as nat);
            lemma_pow2_adds((p + 1) as nat, (23 - p) as nat);
            lemma_mul_strict_inequality(magi, pow2((p + 1) as nat) as int, pw as int);
            lemma_pow2_adds(p as nat, (23 - p) as nat);
            lemma_mul_inequality(pow2(p as nat) as int, magi, pw as int);
        }
        let mant = mag * pw;
        assert(0x800000 <= mant && mant < 0x1000000);
        let exp: u32 = p + 127;
        sbit + exp * 0x800000 + ((mant - 0x800000) as u32)
    } else {
        let shift = p - 23;
        let pw = pow2_u64(shift);
        proof {
            lemma_pow2_pos(shift as nat);
        }
        let q = mag / pw;
        let r = mag % pw;
        proof {
            vstd::arithmetic::power2::lemma2_to64();
            lemma_pow2_adds(shift as nat, 24);
            assert(magi < (pow2(shift as nat) * pow2(24)) as int);
            vstd::arithmetic::div_mod::lemma_multiply_divide_lt(
                magi,
                pow2(shift as nat) as int,
                pow2(24) as int,
            );
            lemma_pow2_adds(shift as nat, 23);
            vstd::arithmetic::div_mod::lemma_div_multiples_vanish_fancy(
                pow2(23) as int,
                0,
                pow2(shift as nat) as int,
            );
            vstd::arithmetic::div_mod::lemma_div_is_ordered(
                pow2((shift + 23) as nat) as int,
                magi,
                pow2(shift as nat) as int,
            );
        }
        assert(0x800000 <= q && q < 0x1000000);
        let q2: u64 = if r * 2 > pw || (r * 2 == pw && q % 2 == 1) {
            q + 1
        } else {
            q
        };
        if q2 == 0x1000000 {
            let exp: u32 = p + 1 + 127;
            sbit + exp * 0x800000
        } else {
            let exp: u32 = p + 127;
            sbit + exp * 0x800000 + ((q2 - 0x800000) as u32)
        }
    }
}

} // verus!
