//! Integer square root, the one non-closed-form computation the solver
//! needs: side lengths and the Heron area are square roots, so the incircle
//! works with their floors at a fixed scale.

use vstd::prelude::*;

verus! {

/// `r` is the floor of the square root of `n`.
pub open spec fn is_sqrt_floor(n: int, r: int) -> bool {
    &&& 0 <= r
    &&& r * r <= n
    &&& n < (r + 1) * (r + 1)
}

/// The floor of the square root, as a total recursive definition
/// (0 for negative arguments).
pub open spec fn sqrt_floor(n: int) -> int
    decreases n,
{
    if n <= 0 {
        0
    } else {
        let r = sqrt_floor(n - 1);
        if (r + 1) * (r + 1) <= n {
            r + 1
        } else {
            r
        }
    }
}

/// `sqrt_floor` meets its characterization.
pub proof fn lemma_sqrt_floor_is_floor(n: int)
    requires
        n >= 0,
    ensures
        is_sqrt_floor(n, sqrt_floor(n)),
    decreases n,
{
    if n == 0 {
        assert(is_sqrt_floor(0, 0)) by (nonlinear_arith);
    } else {
        lemma_sqrt_floor_is_floor(n - 1);
        let r = sqrt_floor(n - 1);
        if (r + 1) * (r + 1) <= n {
            assert(n - 1 < (r + 1) * (r + 1));
            assert(n == (r + 1) * (r + 1));
            assert((r + 1 + 1) * (r + 1 + 1) > (r + 1) * (r + 1)) by (nonlinear_arith)
                requires r >= 0;
        } else {
        }
    }
}

/// The floor of the square root is unique.
pub proof fn lemma_sqrt_floor_unique(n: int, r: int)
    requires
        n >= 0,
        is_sqrt_floor(n, r),
    ensures
        r == sqrt_floor(n),
{
    lemma_sqrt_floor_is_floor(n);
    let s = sqrt_floor(n);
    assert(r == s) by (nonlinear_arith)
        requires
            0 <= r,
            0 <= s,
            r * r <= n,
            s * s <= n,
            n < (r + 1) * (r + 1),
            n < (s + 1) * (s + 1);
}

/// An upper bound on the argument bounds the root.
pub proof fn lemma_sqrt_floor_le(n: int, b: int)
    requires
        0 <= n,
        0 <= b,
        n <= b * b,
    ensures
        sqrt_floor(n) <= b,
{
    lemma_sqrt_floor_is_floor(n);
    let s = sqrt_floor(n);
    assert(s <= b) by (nonlinear_arith)
        requires
            0 <= s,
            0 <= b,
            s * s <= n,
            n <= b * b;
}

/// A lower bound on the argument bounds the root.
pub proof fn lemma_sqrt_floor_ge(n: int, b: int)
    requires
        0 <= b,
        b * b <= n,
    ensures
        sqrt_floor(n) >= b,
{
    lemma_sqrt_floor_is_floor(n);
    let s = sqrt_floor(n);
    assert(s >= b) by (nonlinear_arith)
        requires
            0 <= s,
            0 <= b,
            b * b <= n,
            n < (s + 1) * (s + 1);
}

/// Largest argument `isqrt` accepts: `2^126`, so that the search bounds
/// can be squared inside `i128`.
pub const ISQRT_MAX: i128 = 0x4000_0000_0000_0000_0000_0000_0000_0000;

/// Floor of the square root of `n`, by binary search.
pub fn isqrt(n: i128) -> (r: i128)
    requires
        0 <= n < ISQRT_MAX,
    ensures
        r == sqrt_floor(n as int),
        is_sqrt_floor(n as int, r as int),
{
    proof {
        lemma_sqrt_floor_is_floor(n as int);
    }
    if n == 0 {
        proof {
            lemma_sqrt_floor_unique(n as int, 0);
        }
        return 0;
    }
    let mut lo: i128 = 0;
    let mut hi: i128 = 0x8000_0000_0000_0000;
    proof {
        assert(n < hi * hi) by (nonlinear_arith)
            requires hi == 0x8000_0000_0000_0000i128, n < ISQRT_MAX;
    }
    while lo + 1 < hi
        invariant
            0 <= lo < hi <= 0x8000_0000_0000_0000,
            lo * lo <= n,
            n < hi * hi,
            0 < n < ISQRT_MAX,
        decreases hi - lo,
    {
        let mid: i128 = lo + (hi - lo) / 2;
        assert(lo < mid < hi);
        assert(mid * mid < 0x4000_0000_0000_0000_0000_0000_0000_0001) by (nonlinear_arith)
            requires 0 < mid <= 0x8000_0000_0000_0000i128;
        if mid * mid <= n {
            lo = mid;
        } else {
            hi = mid;
        }
    }
    proof {
        lemma_sqrt_floor_unique(n as int, lo as int);
    }
    lo
}

} // verus!
