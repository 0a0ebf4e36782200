//! Fixed-point scalar arithmetic: floor division, fixed-point products and
//! an integer square root, each with an exact contract.

use vstd::prelude::*;
use vstd::arithmetic::div_mod::{
    lemma_fundamental_div_mod, lemma_fundamental_div_mod_converse, lemma_div_nonincreasing,
};

verus! {

/// Number of fixed-point units per geometric unit: a coordinate of `SCALE`
/// stands for the real value 1.0.
pub const SCALE: i64 = 1000;

/// Magnitude bound accepted by `div_floor` for the dividend.
pub const DIV_BOUND: i64 = 0x4000_0000_0000_0000;

/// Floor division of a possibly negative dividend by a positive divisor,
/// agreeing exactly with mathematical (Euclidean) division.
pub fn div_floor(n: i64, d: i64) -> (q: i64)
    requires
        1 <= d,
        -DIV_BOUND <= n <= DIV_BOUND,
    ensures
        q == n as int / d as int,
        d * q <= n < d * q + d,
{
    proof {
        lemma_fundamental_div_mod(n as int, d as int);
    }
    if n >= 0 {
        let nu: u64 = n as u64;
        let du: u64 = d as u64;
        let qu: u64 = nu / du;
        proof {
            lemma_div_nonincreasing(n as int, d as int);
        }
        qu as i64
    } else {
        let m: u64 = (-n) as u64;
        let du: u64 = d as u64;
        let q0: u64 = m / du;
        let r0: u64 = m % du;
        proof {
            lemma_fundamental_div_mod(m as int, d as int);
            lemma_div_nonincreasing(m as int, d as int);
            if r0 == 0 {
                assert(n as int == (-(q0 as int)) * d + 0) by (nonlinear_arith)
                    requires
                        m as int == d as int * (m as int / d as int) + (m as int % d as int),
                        q0 == m as int / d as int,
                        m as int % d as int == 0,
                        n as int == -(m as int),
                ;
                lemma_fundamental_div_mod_converse(n as int, d as int, -(q0 as int), 0);
            } else {
                assert(n as int == (-(q0 as int) - 1) * d + (d - r0)) by (nonlinear_arith)
                    requires
                        m as int == d as int * (m as int / d as int) + (m as int % d as int),
                        q0 == m as int / d as int,
                        r0 == m as int % d as int,
                        n as int == -(m as int),
                ;
                lemma_fundamental_div_mod_converse(n as int, d as int, -(q0 as int) - 1, (d - r0) as int);
            }
        }
        if r0 == 0 {
            -(q0 as i64)
        } else {
            -(q0 as i64) - 1
        }
    }
}

/// Fixed-point product: multiplies two fixed-point scalars and rescales,
/// rounding toward negative infinity.
pub fn fmul(a: i64, b: i64) -> (r: i64)
    requires
        -0x8000_0000 <= a <= 0x8000_0000,
        -0x8000_0000 <= b <= 0x8000_0000,
    ensures
        r == (a * b) / (SCALE as int),
        SCALE * r <= a * b < SCALE * r + SCALE,
{
    proof {
        assert(-0x4000_0000_0000_0000 <= a * b <= 0x4000_0000_0000_0000) by (nonlinear_arith)
            requires
                -0x8000_0000 <= a <= 0x8000_0000,
                -0x8000_0000 <= b <= 0x8000_0000,
        ;
    }
    let p: i64 = a * b;
    div_floor(p, SCALE)
}

/// Relates a quotient back to its dividend: the floor `q = n / d` leaves
/// `n` within `[d * q, d * q + d)`.  Useful for bounding spec-level
/// divisions linearly.
pub proof fn lemma_div_mul_bound(n: int, d: int)
    requires
        1 <= d,
    ensures
        d * (n / d) <= n < d * (n / d) + d,
{
    lemma_fundamental_div_mod(n, d);
}

/// `r` is the integer square root of `n`, rounded down.
pub open spec fn is_sqrt(n: int, r: int) -> bool {
    &&& 0 <= r
    &&& r * r <= n
    &&& n < (r + 1) * (r + 1)
}

/// The integer square root of `n`, rounded down (meaningful for `n >= 0`).
pub open spec fn sqrt_floor(n: int) -> int {
    choose|r: int| is_sqrt(n, r)
}

/// The integer square root is unique, so any witness is `sqrt_floor`.
pub proof fn lemma_sqrt_unique(n: int, r: int)
    requires
        is_sqrt(n, r),
    ensures
        sqrt_floor(n) == r,
{
    assert(exists|r2: int| is_sqrt(n, r2)) by {
        assert(is_sqrt(n, r));
    }
    let w = sqrt_floor(n);
    assert(is_sqrt(n, w));
    assert(w == r) by (nonlinear_arith)
        requires
            0 <= w,
            w * w <= n,
            n < (w + 1) * (w + 1),
            0 <= r,
            r * r <= n,
            n < (r + 1) * (r + 1),
    ;
}

/// Every nonnegative integer has an integer square root, so `sqrt_floor`
/// satisfies its defining property.
pub proof fn lemma_sqrt_exists(n: int)
    requires
        0 <= n,
    ensures
        is_sqrt(n, sqrt_floor(n)),
    decreases n,
{
    if n == 0 {
        assert(is_sqrt(0, 0));
        lemma_sqrt_unique(0, 0);
    } else {
        lemma_sqrt_exists(n - 1);
        let r = sqrt_floor(n - 1);
        if (r + 1) * (r + 1) <= n {
            assert(0 <= r + 1 && (r + 1) * (r + 1) <= n && n < (r + 2) * (r + 2))
                by (nonlinear_arith)
                requires
                    0 <= r,
                    r * r <= n - 1,
                    n - 1 < (r + 1) * (r + 1),
                    (r + 1) * (r + 1) <= n,
            ;
            assert(is_sqrt(n, r + 1));
            lemma_sqrt_unique(n, r + 1);
        } else {
            assert(is_sqrt(n, r));
            lemma_sqrt_unique(n, r);
        }
    }
}

/// Largest `n` accepted by `isqrt`: with `n` below it the root fits well
/// within `u64`.
pub const ISQRT_BOUND: u128 = 0x1000_0000_0000_0000_0000_0000;

/// Integer square root by bisection: the greatest `r` with `r * r <= n`.
pub fn isqrt(n: u128) -> (r: u64)
    requires
        n < ISQRT_BOUND,
    ensures
        r * r <= n < (r + 1) * (r + 1),
        r < 0x1_0000_0000_0000,
        r == sqrt_floor(n as int),
{
    let mut lo: u128 = 0;
    let mut hi: u128 = 0x1_0000_0000_0000;
    proof {
        assert((0x1_0000_0000_0000 * 0x1_0000_0000_0000) == 0x1_0000_0000_0000_0000_0000_0000u128);
    }
    while lo + 1 < hi
        invariant
            0 <= lo < hi <= 0x1_0000_0000_0000,
            lo * lo <= n,
            n < hi * hi,
        decreases hi - lo,
    {
        let mid: u128 = lo + (hi - lo) / 2;
        proof {
            assert(mid * mid <= 0x1_0000_0000_0000_0000_0000_0000u128) by (nonlinear_arith)
                requires
                    0 <= mid <= 0x1_0000_0000_0000u128,
            ;
        }
        let sq: u128 = mid * mid;
        if sq <= n {
            lo = mid;
        } else {
            hi = mid;
        }
    }
    proof {
        assert(hi == lo + 1);
        lemma_sqrt_unique(n as int, lo as int);
    }
    lo as u64
}

} // verus!
