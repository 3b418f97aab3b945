//! IEEE-754 conversions done on bit patterns with integer arithmetic:
//! narrowing a double or an integer to single precision (round to nearest,
//! ties to even) and widening a single back to a double, which is exact.
use vstd::arithmetic::power2::{
    lemma2_to64, lemma2_to64_rest, lemma_pow2_adds, lemma_pow2_pos, lemma_pow2_unfold, pow2,
};
use vstd::prelude::*;

verus! {

/// Position of the highest set bit of `x` (0 for 0 and 1).
pub open spec fn msb(x: nat) -> nat
    decreases x,
{
    if x < 2 {
        0
    } else {
        1 + msb(x / 2)
    }
}

/// `sig / 2^k`, rounded to nearest with ties to the even quotient.
pub open spec fn round_half_even(sig: nat, k: nat) -> nat {
    if k == 0 {
        sig
    } else {
        let q = sig / pow2(k);
        let r = sig % pow2(k);
        let h = pow2((k - 1) as nat);
        if r > h || (r == h && q % 2 == 1) {
            q + 1
        } else {
            q
        }
    }
}

/// The sign bit of a single.
pub open spec fn sign32(neg: bool) -> nat {
    if neg {
        pow2(31)
    } else {
        0
    }
}

/// Bits of the single nearest to `(-1)^neg * sig * 2^q` (ties to even),
/// infinity past the largest finite single.
pub open spec fn round_to_f32(neg: bool, sig: nat, q: int) -> nat {
    if sig == 0 {
        sign32(neg)
    } else {
        let p = msb(sig) as int;
        let t = if p + q - 23 > -149 {
            p + q - 23
        } else {
            -149
        };
        let m0 = if t <= q {
            sig * pow2((q - t) as nat)
        } else {
            round_half_even(sig, (t - q) as nat)
        };
        let m = if m0 == pow2(24) {
            pow2(23)
        } else {
            m0
        };
        let t2 = if m0 == pow2(24) {
            t + 1
        } else {
            t
        };
        if m < pow2(23) {
            sign32(neg) + m
        } else if t2 + 150 >= 255 {
            sign32(neg) + 0x7f80_0000
        } else {
            (sign32(neg) + ((t2 + 150) as nat) * pow2(23) + (m - pow2(23))) as nat
        }
    }
}

/// Bits of the single a double (given by its bits) converts to.
pub open spec fn narrow_f64(b: nat) -> nat {
    let neg = b / pow2(63) == 1;
    let e = (b / pow2(52)) % 2048;
    let m = b % pow2(52);
    if e == 2047 {
        if m == 0 {
            sign32(neg) + 0x7f80_0000
        } else {
            let t = m / pow2(29);
            sign32(neg) + 0x7f80_0000 + (if t >= pow2(22) {
                t
            } else {
                t + pow2(22)
            })
        }
    } else if e == 0 {
        round_to_f32(neg, m, -1074)
    } else {
        round_to_f32(neg, m + pow2(52), e - 1075)
    }
}

/// Bits of the double equal to a single (given by its bits).
pub open spec fn widen_f32(f: nat) -> nat {
    let neg = f / pow2(31) == 1;
    let e = (f / pow2(23)) % 256;
    let m = f % pow2(23);
    let s = if neg {
        pow2(63)
    } else {
        0
    };
    if e == 255 {
        s + 0x7ff * pow2(52) + m * pow2(29)
    } else if e == 0 {
        if m == 0 {
            s
        } else {
            let p = msb(m);
            (s + (p + 874) * pow2(52) + (m * pow2((52 - p) as nat) - pow2(52))) as nat
        }
    } else {
        s + (e + 896) * pow2(52) + m * pow2(29)
    }
}

/// `2^k` for `k < 64`.
fn pow2_u64(k: u64) -> (r: u64)
    requires
        k < 64,
    ensures
        r == pow2(k as nat),
{
    let mut r: u64 = 1;
    let mut i: u64 = 0;
    proof {
        lemma2_to64();
    }
    while i < k
        invariant
            i <= k < 64,
            r == pow2(i as nat),
        decreases k - i,
    {
        proof {
            lemma_pow2_unfold((i + 1) as nat);
            lemma_pow2_monotone((i + 1) as nat, 63);
            lemma2_to64();
        lemma2_to64_rest();
        }
        r = r * 2;
        i = i + 1;
    }
    r
}

/// `pow2` does not decrease.
proof fn lemma_pow2_monotone(a: nat, b: nat)
    requires
        a <= b,
    ensures
        pow2(a) <= pow2(b),
    decreases b - a,
{
    if a < b {
        lemma_pow2_monotone(a, (b - 1) as nat);
        lemma_pow2_unfold(b);
        lemma_pow2_pos((b - 1) as nat);
    }
}

/// The highest set bit brackets the value.
proof fn lemma_msb_bounds(x: nat)
    requires
        x >= 1,
    ensures
        pow2(msb(x)) <= x < pow2(msb(x) + 1),
    decreases x,
{
    if x < 2 {
        lemma2_to64();
        lemma2_to64_rest();
    } else {
        lemma_msb_bounds(x / 2);
        lemma_pow2_unfold(msb(x));
        lemma_pow2_unfold(msb(x) + 1);
    }
}

/// The position of the highest set bit of `x`.
fn msb_u64(x: u64) -> (r: u64)
    ensures
        r == msb(x as nat),
        r < 64,
{
    let mut y: u64 = x;
    let mut r: u64 = 0;
    proof {
        lemma_msb_u64_lt(x);
    }
    while y >= 2
        invariant
            msb(x as nat) == r + msb(y as nat),
            r + msb(y as nat) < 64,
        decreases y,
    {
        r = r + 1;
        y = y / 2;
    }
    r
}

/// A 64-bit value has its highest bit below 64.
proof fn lemma_msb_u64_lt(x: u64)
    ensures
        msb(x as nat) < 64,
{
    if x >= 1 {
        lemma_msb_bounds(x as nat);
        if msb(x as nat) >= 64 {
            lemma_pow2_monotone(64, msb(x as nat));
            lemma2_to64();
        lemma2_to64_rest();
        }
    }
}

/// Rounding `sig < 2^(k + 24)` down by `k` bits gives at most `2^24`.
proof fn lemma_round_half_even_bound(sig: nat, k: nat)
    requires
        sig < pow2(k + 24),
    ensures
        round_half_even(sig, k) <= pow2(24),
{
    lemma_pow2_adds(k, 24);
    lemma_pow2_pos(k);
    lemma_pow2_pos(24);
    if k > 0 {
        let d = pow2(k);
        let b = pow2(24);
        assert(sig / d < b) by (nonlinear_arith)
            requires
                sig < d * b,
                d > 0,
        ;
    } else {
        lemma2_to64();
    }
}

/// `sig / 2^k` rounded to nearest, ties to even.
fn round_half_even_exec(sig: u64, k: u64) -> (r: u64)
    requires
        k < 64,
    ensures
        r == round_half_even(sig as nat, k as nat),
{
    if k == 0 {
        return sig;
    }
    let d = pow2_u64(k);
    let h = pow2_u64(k - 1);
    proof {
        lemma_pow2_pos(k as nat);
    }
    let q = sig / d;
    let r = sig % d;
    if r > h || (r == h && q % 2 == 1) {
        proof {
            lemma_pow2_unfold(k as nat);
            assert(q < 0xffff_ffff_ffff_ffff) by (nonlinear_arith)
                requires
                    q == sig / d,
                    d >= 2,
            ;
        }
        q + 1
    } else {
        q
    }
}

/// Bits of the single nearest to `(-1)^neg * sig * 2^q`.
fn round_to_f32_exec(neg: bool, sig: u64, q: i64) -> (r: u32)
    requires
        -1074 <= q <= 971,
        sig <= 0x8000_0000_0000_0000,
        q < 0 ==> sig < 0x20_0000_0000_0000,
    ensures
        r == round_to_f32(neg, sig as nat, q as int),
{
    let sb: u32 = if neg {
        0x8000_0000
    } else {
        0
    };
    proof {
        lemma2_to64();
        lemma2_to64_rest();
        lemma2_to64();
        lemma2_to64_rest();
        lemma2_to64();
        lemma2_to64_rest();
    }
    if sig == 0 {
        return sb;
    }
    let p = msb_u64(sig);
    proof {
        lemma_msb_bounds(sig as nat);
    }
    let t: i64 = if p as i64 + q - 23 > -149 {
        p as i64 + q - 23
    } else {
        -149
    };
    let m0: u64 = if t <= q {
        let s = (q - t) as u64;
        proof {
            // sig < 2^(p+1) and p + 1 + (q - t) <= 24
            lemma_pow2_monotone((p + 1 + s) as nat, 24);
            lemma_pow2_adds((p + 1) as nat, s as nat);
            lemma_pow2_monotone(s as nat, 24);
            assert(sig * pow2(s as nat) <= pow2((p + 1) as nat) * pow2(s as nat)) by (nonlinear_arith)
                requires
                    sig < pow2((p + 1) as nat),
            ;
        }
        let f = pow2_u64(s);
        sig * f
    } else {
        let k = (t - q) as u64;
        if k >= 64 {
            proof {
                // only tiny doubles get here: sig < 2^53 <= 2^(k - 1)
                lemma_pow2_monotone(63, k as nat);
                lemma_pow2_monotone(53, (k - 1) as nat);
                lemma2_to64();
        lemma2_to64_rest();
                lemma2_to64();
        lemma2_to64_rest();
                lemma_pow2_unfold(k as nat);
                assert(sig as nat / pow2(k as nat) == 0) by (nonlinear_arith)
                    requires
                        sig < pow2(k as nat),
                ;
                assert(sig as nat % pow2(k as nat) == sig) by (nonlinear_arith)
                    requires
                        sig < pow2(k as nat),
                ;
            }
            0
        } else {
            round_half_even_exec(sig, k)
        }
    };
    proof {
        if t <= q {
            assert(m0 <= pow2(24));
        } else if (t - q) < 64 {
            let k = (t - q) as nat;
            // sig < 2^(p + 1) <= 2^(k + 24)
            lemma_pow2_monotone((p + 1) as nat, k + 24);
            lemma_round_half_even_bound(sig as nat, k);
        }
    }
    let (m, t2): (u64, i64) = if m0 == 0x100_0000 {
        (0x80_0000, t + 1)
    } else {
        (m0, t)
    };
    if m < 0x80_0000 {
        sb + m as u32
    } else if t2 + 150 >= 255 {
        sb + 0x7f80_0000
    } else {
        let e = (t2 + 150) as u32;
        assert(e * 0x80_0000 <= 254 * 0x80_0000) by (nonlinear_arith)
            requires
                e <= 254,
        ;
        sb + e * 0x80_0000 + (m - 0x80_0000) as u32
    }
}

/// The single a double converts to (Rust's `as f32`), on bit patterns.
pub fn narrow_f64_bits(b: u64) -> (r: u32)
    ensures
        r == narrow_f64(b as nat),
{
    proof {
        lemma2_to64();
        lemma2_to64_rest();
    }
    let neg = b / 0x8000_0000_0000_0000 == 1;
    let e = (b / 0x10_0000_0000_0000) % 2048;
    let m = b % 0x10_0000_0000_0000;
    let sb: u32 = if neg {
        0x8000_0000
    } else {
        0
    };
    if e == 2047 {
        if m == 0 {
            sb + 0x7f80_0000
        } else {
            let t = (m / 0x2000_0000) as u32;
            sb + 0x7f80_0000 + if t >= 0x40_0000 {
                t
            } else {
                t + 0x40_0000
            }
        }
    } else if e == 0 {
        round_to_f32_exec(neg, m, -1074)
    } else {
        round_to_f32_exec(neg, m + 0x10_0000_0000_0000, e as i64 - 1075)
    }
}

/// The single an integer converts to (Rust's `as f32`), as a bit pattern.
pub fn narrow_i64_bits(x: i64) -> (r: u32)
    ensures
        r == round_to_f32(x < 0, (if x < 0 { -(x as int) } else { x as int }) as nat, 0),
{
    let mag: u64 = if x < 0 {
        if x == i64::MIN {
            0x8000_0000_0000_0000
        } else {
            (-x) as u64
        }
    } else {
        x as u64
    };
    round_to_f32_exec(x < 0, mag, 0)
}

/// The double equal to a single, on bit patterns (exact).
pub fn widen_f32_bits(f: u32) -> (r: u64)
    ensures
        r == widen_f32(f as nat),
{
    proof {
        lemma2_to64();
        lemma2_to64_rest();
    }
    let neg = f / 0x8000_0000 == 1;
    let e = ((f / 0x80_0000) % 256) as u64;
    let m = (f % 0x80_0000) as u64;
    let s: u64 = if neg {
        0x8000_0000_0000_0000
    } else {
        0
    };
    if e == 255 {
        s + 0x7ff * 0x10_0000_0000_0000 + m * 0x2000_0000
    } else if e == 0 {
        if m == 0 {
            s
        } else {
            let p = msb_u64(m);
            proof {
                lemma_msb_bounds(m as nat);
                if p >= 23 {
                    lemma_pow2_monotone(23, p as nat);
                }
                lemma_pow2_adds((p + 1) as nat, (52 - p) as nat);
                assert(m * pow2((52 - p) as nat) <= pow2((p + 1) as nat) * pow2((52 - p) as nat)) by (nonlinear_arith)
                    requires
                        m < pow2((p + 1) as nat),
                ;
                assert(m * pow2((52 - p) as nat) >= pow2(p as nat) * pow2((52 - p) as nat)) by (nonlinear_arith)
                    requires
                        m >= pow2(p as nat),
                ;
                lemma_pow2_adds(p as nat, (52 - p) as nat);
                assert((p + 874) * 0x10_0000_0000_0000 <= 896 * 0x10_0000_0000_0000) by (nonlinear_arith)
                    requires
                        p <= 22,
                ;
            }
            let f2 = pow2_u64(52 - p);
            s + (p + 874) * 0x10_0000_0000_0000 + (m * f2 - 0x10_0000_0000_0000)
        }
    } else {
        assert((e + 896) * 0x10_0000_0000_0000 <= 1150 * 0x10_0000_0000_0000) by (nonlinear_arith)
            requires
                e <= 254,
        ;
        s + (e + 896) * 0x10_0000_0000_0000 + m * 0x2000_0000
    }
}

} // verus!
