//! Fixed-point arithmetic for the simulation.
//!
//! Every length, speed and direction component in the game is a Q16 value: an
//! `i64` whose low 16 bits are the fractional part. The helpers here are the
//! exact integer operations the simulation is built from: truncating
//! division (rounding toward zero), clamping,
//! a floor square root for renormalising direction vectors, and the reader
//! that turns an IEEE-754 binary32 bit pattern into a Q16 axis value.

use vstd::prelude::*;
use vstd::arithmetic::power2::*;
use vstd::arithmetic::div_mod::*;
use vstd::bits::*;

verus! {

/// One unit in Q16 fixed point.
pub const SCALE: i64 = 65536;

/// Truncating division: the quotient rounded toward zero.
pub open spec fn sp_tdiv(x: int, d: int) -> int
    recommends
        d > 0,
{
    if x >= 0 {
        x / d
    } else {
        -((-x) / d)
    }
}

/// Clamp `x` into `[lo, hi]`.
pub open spec fn sp_clamp(x: int, lo: int, hi: int) -> int {
    if x < lo {
        lo
    } else if x > hi {
        hi
    } else {
        x
    }
}

pub open spec fn sp_abs(x: int) -> int {
    if x >= 0 {
        x
    } else {
        -x
    }
}

/// The sign of `x` as -1, 0 or 1.
pub open spec fn sp_sign(x: int) -> int {
    if x > 0 {
        1
    } else if x < 0 {
        -1
    } else {
        0
    }
}

/// Floor square root, by halving the argument two bits at a time.
pub open spec fn sp_isqrt(n: nat) -> nat
    decreases n,
{
    if n == 0 {
        0
    } else {
        let h = 2 * sp_isqrt(n / 4);
        if (h + 1) * (h + 1) <= n {
            h + 1
        } else {
            h
        }
    }
}

/// `sp_isqrt(n)` really is the floor square root of `n`.
pub proof fn lemma_isqrt_bounds(n: nat)
    ensures
        sp_isqrt(n) * sp_isqrt(n) <= n,
        n < (sp_isqrt(n) + 1) * (sp_isqrt(n) + 1),
    decreases n,
{
    let r = sp_isqrt(n);
    if n == 0 {
        assert(r == 0);
        assert(n < (r + 1) * (r + 1)) by (nonlinear_arith)
            requires
                n == 0nat,
                r == 0nat,
        ;
    } else {
        let q = n / 4;
        lemma_isqrt_bounds(q);
        let s = sp_isqrt(q);
        let h = 2 * s;
        assert(4 * q <= n && n <= 4 * q + 3) by {
            lemma_fundamental_div_mod(n as int, 4);
            lemma_mod_division_less_than_divisor(n as int, 4);
        }
        assert(h * h <= 4 * q) by (nonlinear_arith)
            requires
                s * s <= q,
                h == 2 * s,
        ;
        assert(n < (h + 2) * (h + 2)) by (nonlinear_arith)
            requires
                q < (s + 1) * (s + 1),
                h == 2 * s,
                n <= 4 * q + 3,
        ;
        if (h + 1) * (h + 1) <= n {
            assert(sp_isqrt(n) == h + 1);
            assert(sp_isqrt(n) * sp_isqrt(n) <= n);
            assert(n < (sp_isqrt(n) + 1) * (sp_isqrt(n) + 1));
        } else {
            assert(sp_isqrt(n) == h);
            assert(sp_isqrt(n) * sp_isqrt(n) <= n);
            assert(n < (sp_isqrt(n) + 1) * (sp_isqrt(n) + 1));
        }
    }
}

/// The floor square root is unique: any `r` with `r² ≤ n < (r+1)²` is it.
pub proof fn lemma_isqrt_unique(n: nat, r: nat)
    requires
        r * r <= n,
        n < (r + 1) * (r + 1),
    ensures
        sp_isqrt(n) == r,
{
    let q = sp_isqrt(n);
    lemma_isqrt_bounds(n);
    if q < r {
        assert((q + 1) * (q + 1) <= r * r) by (nonlinear_arith)
            requires
                q < r,
        ;
    }
    if q > r {
        assert((r + 1) * (r + 1) <= q * q) by (nonlinear_arith)
            requires
                r < q,
        ;
    }
}

/// The magnitude of a truncating quotient is bounded by any `m` with
/// `|a| <= d * m`.
pub proof fn lemma_tdiv_le(a: int, d: int, m: int)
    requires
        d > 0,
        0 <= m,
        sp_abs(a) <= d * m,
    ensures
        sp_abs(sp_tdiv(a, d)) <= m,
{
    lemma_div_pos_is_pos(sp_abs(a), d);
    lemma_div_is_ordered(sp_abs(a), d * m, d);
    lemma_div_multiples_vanish(m, d);
    assert(sp_abs(sp_tdiv(a, d)) == sp_abs(a) / d);
}

/// Truncating division of a Q16 value by a positive divisor.
pub fn tdiv(x: i64, d: i64) -> (r: i64)
    requires
        d > 0,
        x > i64::MIN,
    ensures
        r == sp_tdiv(x as int, d as int),
        sp_abs(r as int) <= sp_abs(x as int),
{
    proof {
        lemma_div_nonincreasing(sp_abs(x as int), d as int);
        lemma_div_pos_is_pos(sp_abs(x as int), d as int);
    }
    if x >= 0 {
        ((x as u64) / (d as u64)) as i64
    } else {
        -((((-x) as u64) / (d as u64)) as i64)
    }
}

/// Clamp a value into `[lo, hi]`.
pub fn clamp_i64(x: i64, lo: i64, hi: i64) -> (r: i64)
    requires
        lo <= hi,
    ensures
        r == sp_clamp(x as int, lo as int, hi as int),
{
    if x < lo {
        lo
    } else if x > hi {
        hi
    } else {
        x
    }
}

/// Floor square root of a 64-bit value, by binary search.
pub fn isqrt64(n: u64) -> (r: u64)
    requires
        n <= 0x4000_0000_0000_0000,
    ensures
        r == sp_isqrt(n as nat),
        r * r <= n < (r + 1) * (r + 1),
{
    let mut lo: u64 = 0;
    let mut hi: u64 = 0x8000_0001;
    while lo + 1 < hi
        invariant
            lo < hi <= 0x8000_0001,
            lo * lo <= n,
            n < hi * hi,
        decreases hi - lo,
    {
        let mid = lo + (hi - lo) / 2;
        assert(lo < mid < hi);
        assert(mid * mid <= 0x4000000100000001) by (nonlinear_arith)
            requires
                mid <= 0x80000001u64,
        ;
        if mid * mid <= n {
            lo = mid;
        } else {
            hi = mid;
        }
    }
    proof {
        lemma_isqrt_unique(n as nat, lo as nat);
    }
    lo
}

/// The Q16 magnitude that an IEEE-754 binary32 bit pattern denotes, truncated
/// toward zero and saturated at one unit: exponents of 127 and above (values
/// of magnitude 1.0 and up, infinities and NaNs included) all read as one.
pub open spec fn sp_axis_mag(bits: u32) -> int {
    let e = ((bits >> 23) & 0xff) as int;
    let frac = ((bits & 0x7fffff) | 0x800000) as int;
    if e >= 127 {
        65536
    } else {
        frac / pow2((134 - e) as nat) as int
    }
}

/// The Q16 axis value that an IEEE-754 binary32 bit pattern denotes.
pub open spec fn sp_axis_q16(bits: u32) -> int {
    if (bits >> 31) == 1 {
        -sp_axis_mag(bits)
    } else {
        sp_axis_mag(bits)
    }
}

/// Axis values always land in one Q16 unit either way.
pub proof fn lemma_axis_bounds(bits: u32)
    ensures
        -65536 <= sp_axis_q16(bits) <= 65536,
{
    let e = ((bits >> 23) & 0xff) as int;
    let frac = ((bits & 0x7fffff) | 0x800000) as int;
    assert((bits >> 23) & 0xff < 256u32 && 0u32 < ((bits & 0x7fffff) | 0x800000)
        && ((bits & 0x7fffff) | 0x800000) < 0x1000000u32) by (bit_vector);
    if e < 127 {
        let sh = (134 - e) as nat;
        assert(sh >= 8);
        lemma_pow2_adds(8, (sh - 8) as nat);
        lemma_pow2_pos((sh - 8) as nat);
        lemma2_to64();
        assert(pow2(sh) >= 256) by (nonlinear_arith)
            requires
                pow2(sh) == pow2(8) * pow2((sh - 8) as nat),
                pow2(8) == 256,
                pow2((sh - 8) as nat) >= 1,
        ;
        lemma_div_is_ordered_by_denominator(frac, 256, pow2(sh) as int);
        lemma_div_pos_is_pos(frac, pow2(sh) as int);
        assert(frac / 256 < 65536);
    }
}

/// The all-zero bit pattern (+0.0) reads as axis zero.
pub proof fn lemma_axis_zero()
    ensures
        sp_axis_q16(0) == 0,
{
    assert((0u32 >> 31) == 0u32 && (0u32 >> 23) & 0xff == 0u32
        && ((0u32 & 0x7fffff) | 0x800000) == 0x800000u32) by (bit_vector);
    lemma_pow2_strictly_increases(24, 134);
    lemma2_to64();
    lemma_basic_div(0x800000, pow2(134) as int);
}

/// Read an IEEE-754 binary32 bit pattern as a Q16 axis value.
pub fn axis_q16(bits: u32) -> (r: i64)
    ensures
        r == sp_axis_q16(bits),
        -65536 <= r <= 65536,
{
    proof {
        lemma_axis_bounds(bits);
    }
    let e: u32 = (bits >> 23) & 0xff;
    let frac: u64 = ((bits & 0x7fffff) | 0x800000) as u64;
    let mag: u64 = if e >= 127 {
        65536
    } else {
        let sh: u64 = (134 - e) as u64;
        if sh >= 64 {
            proof {
                assert(((bits & 0x7fffff) | 0x800000) < 0x1000000u32) by (bit_vector);
                lemma_pow2_strictly_increases(24, sh as nat);
                lemma2_to64();
                lemma_basic_div(frac as int, pow2(sh as nat) as int);
            }
            0
        } else {
            proof {
                lemma_u64_shr_is_div(frac, sh);
            }
            frac >> sh
        }
    };
    if (bits >> 31) == 1 {
        -(mag as i64)
    } else {
        mag as i64
    }
}

} // verus!
