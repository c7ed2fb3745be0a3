//! Integer square and fifth roots: spec-level floor roots with their
//! characterizations, and executable binary searches proved against them.
//! They realize the square-root and power-law formulas of the simulation
//! over fixed-point scalars.

use vstd::prelude::*;

verus! {

/// Floor of the square root, defined by counting up.
pub open spec fn sqrt_floor(n: int) -> int
    decreases n,
{
    if n <= 0 {
        0
    } else {
        let r = sqrt_floor(n - 1);
        if (r + 1) * (r + 1) <= n {
            r + 1
        } else {
            r
        }
    }
}

/// Squares are monotone over the nonnegative integers.
pub proof fn lemma_sq_le(a: int, b: int)
    by (nonlinear_arith)
    requires
        0 <= a <= b,
    ensures
        a * a <= b * b,
{
}

/// `sqrt_floor(n)` is the largest integer whose square is at most `n`.
pub proof fn lemma_sqrt_floor(n: int)
    requires
        n >= 0,
    ensures
        0 <= sqrt_floor(n),
        sqrt_floor(n) * sqrt_floor(n) <= n,
        n < (sqrt_floor(n) + 1) * (sqrt_floor(n) + 1),
    decreases n,
{
    if n == 0 {
    } else {
        lemma_sqrt_floor(n - 1);
        let r = sqrt_floor(n - 1);
        if (r + 1) * (r + 1) <= n {
            assert((r + 2) * (r + 2) > (r + 1) * (r + 1)) by (nonlinear_arith)
                requires
                    r >= 0,
            ;
        }
    }
}

/// Any integer with the floor-root characterization is `sqrt_floor(n)`.
pub proof fn lemma_sqrt_floor_unique(n: int, r: int)
    requires
        0 <= n,
        0 <= r,
        r * r <= n,
        n < (r + 1) * (r + 1),
    ensures
        r == sqrt_floor(n),
{
    lemma_sqrt_floor(n);
    let s = sqrt_floor(n);
    if r < s {
        lemma_sq_le(r + 1, s);
    }
    if s < r {
        lemma_sq_le(s + 1, r);
    }
}

/// The floor square root is monotone.
pub proof fn lemma_sqrt_floor_monotone(a: int, b: int)
    requires
        0 <= a <= b,
    ensures
        sqrt_floor(a) <= sqrt_floor(b),
{
    lemma_sqrt_floor(a);
    lemma_sqrt_floor(b);
    let sa = sqrt_floor(a);
    let sb = sqrt_floor(b);
    if sb < sa {
        lemma_sq_le(sb + 1, sa);
    }
}

/// Fifth power.
pub open spec fn pow5(r: int) -> int {
    r * r * r * r * r
}

/// Fifth powers are monotone over the nonnegative integers.
pub proof fn lemma_pow5_le(a: int, b: int)
    by (nonlinear_arith)
    requires
        0 <= a <= b,
    ensures
        a * a * a * a * a <= b * b * b * b * b,
{
}

/// Floor of the fifth root, defined by counting up.
pub open spec fn root5_floor(n: int) -> int
    decreases n,
{
    if n <= 0 {
        0
    } else {
        let r = root5_floor(n - 1);
        if pow5(r + 1) <= n {
            r + 1
        } else {
            r
        }
    }
}

/// `root5_floor(n)` is the largest integer whose fifth power is at most `n`.
pub proof fn lemma_root5_floor(n: int)
    requires
        n >= 0,
    ensures
        0 <= root5_floor(n),
        pow5(root5_floor(n)) <= n,
        n < pow5(root5_floor(n) + 1),
    decreases n,
{
    if n == 0 {
    } else {
        lemma_root5_floor(n - 1);
        let r = root5_floor(n - 1);
        if pow5(r + 1) <= n {
            lemma_pow5_le(r + 1, r + 2);
            assert(pow5(r + 1) < pow5(r + 2)) by (nonlinear_arith)
                requires
                    r >= 0,
            ;
        }
    }
}

/// Any integer with the floor-root characterization is `root5_floor(n)`.
pub proof fn lemma_root5_floor_unique(n: int, r: int)
    requires
        0 <= n,
        0 <= r,
        pow5(r) <= n,
        n < pow5(r + 1),
    ensures
        r == root5_floor(n),
{
    lemma_root5_floor(n);
    let s = root5_floor(n);
    if r < s {
        lemma_pow5_le(r + 1, s);
    }
    if s < r {
        lemma_pow5_le(s + 1, r);
    }
}

/// The floor fifth root is monotone.
pub proof fn lemma_root5_floor_monotone(a: int, b: int)
    requires
        0 <= a <= b,
    ensures
        root5_floor(a) <= root5_floor(b),
{
    lemma_root5_floor(a);
    lemma_root5_floor(b);
    let sa = root5_floor(a);
    let sb = root5_floor(b);
    if sb < sa {
        lemma_pow5_le(sb + 1, sa);
    }
}

/// Floor square root of a wide unsigned value, by binary search.
pub fn isqrt_u128(n: u128) -> (r: u128)
    requires
        n < 0x4000_0000_0000_0000_0000_0000_0000_0000u128,
    ensures
        r == sqrt_floor(n as int),
        r <= 0x8000_0000_0000_0000u128,
{
    let mut lo: u128 = 0;
    let mut hi: u128 = 0x8000_0000_0000_0000u128;
    while lo < hi
        invariant
            lo <= hi <= 0x8000_0000_0000_0000u128,
            lo * lo <= n,
            n < (hi + 1) * (hi + 1),
        decreases hi - lo,
    {
        let mid: u128 = lo + (hi - lo + 1) / 2;
        proof {
            assert(mid * mid <= 0x8000_0000_0000_0000u128 * 0x8000_0000_0000_0000u128)
                by (nonlinear_arith)
                requires
                    mid <= 0x8000_0000_0000_0000u128,
            ;
        }
        let sq: u128 = mid * mid;
        if sq <= n {
            lo = mid;
        } else {
            hi = mid - 1;
        }
    }
    proof {
        lemma_sqrt_floor_unique(n as int, lo as int);
    }
    lo
}

/// Floor fifth root of a wide unsigned value, by binary search.
pub fn iroot5_u128(n: u128) -> (r: u128)
    requires
        n < 0x10_0000_0000_0000_0000_0000_0000u128,
    ensures
        r == root5_floor(n as int),
        r <= 0x10_0000u128,
{
    let mut lo: u128 = 0;
    let mut hi: u128 = 0x10_0000u128;
    proof {
        assert(pow5(0x10_0001) > 0x10_0000_0000_0000_0000_0000_0000) by (nonlinear_arith);
    }
    while lo < hi
        invariant
            lo <= hi <= 0x10_0000u128,
            pow5(lo as int) <= n,
            n < pow5(hi as int + 1),
        decreases hi - lo,
    {
        let mid: u128 = lo + (hi - lo + 1) / 2;
        proof {
            assert(mid * mid <= 0x100_0000_0000u128) by (nonlinear_arith)
                requires
                    mid <= 0x10_0000u128,
            ;
            assert(mid * mid * mid <= 0x1_0000_0000_0000_0000u128) by (nonlinear_arith)
                requires
                    mid <= 0x10_0000u128,
                    mid * mid <= 0x100_0000_0000u128,
            ;
            assert(mid * mid * mid * mid <= 0x1_0000_0000_0000_0000_0000u128)
                by (nonlinear_arith)
                requires
                    mid <= 0x10_0000u128,
                    mid * mid * mid <= 0x1_0000_0000_0000_0000u128,
            ;
            assert(mid * mid * mid * mid * mid <= 0x10_0000_0000_0000_0000_0000_0000u128)
                by (nonlinear_arith)
                requires
                    mid <= 0x10_0000u128,
                    mid * mid * mid * mid <= 0x1_0000_0000_0000_0000_0000u128,
            ;
        }
        let p: u128 = mid * mid * mid * mid * mid;
        if p <= n {
            lo = mid;
        } else {
            hi = mid - 1;
        }
    }
    proof {
        lemma_root5_floor_unique(n as int, lo as int);
    }
    lo
}

} // verus!
