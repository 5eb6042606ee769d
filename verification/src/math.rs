use vstd::prelude::*;

verus! {

/// The integer square root: the largest `r` with `r * r <= n`.
pub open spec fn sqrt_floor(n: nat) -> nat
    decreases n,
{
    if n == 0 {
        0
    } else {
        let p = sqrt_floor((n - 1) as nat);
        if (p + 1) * (p + 1) <= n {
            p + 1
        } else {
            p
        }
    }
}

pub proof fn lemma_sqrt_floor_bounds(n: nat)
    ensures
        sqrt_floor(n) * sqrt_floor(n) <= n,
        n < (sqrt_floor(n) + 1) * (sqrt_floor(n) + 1),
        sqrt_floor(n) <= n,
    decreases n,
{
    if n == 0 {
        assert(sqrt_floor(0) == 0);
        assert(n < (sqrt_floor(n) + 1) * (sqrt_floor(n) + 1)) by (nonlinear_arith)
            requires
                n == 0,
                sqrt_floor(n) == 0,
        ;
    } else {
        let p = sqrt_floor((n - 1) as nat);
        let s = sqrt_floor(n);
        lemma_sqrt_floor_bounds((n - 1) as nat);
        if (p + 1) * (p + 1) <= n {
            assert(s == p + 1);
            assert(s * s <= n && n < (s + 1) * (s + 1) && s <= n) by (nonlinear_arith)
                requires
                    s == p + 1,
                    n - 1 < (p + 1) * (p + 1),
                    (p + 1) * (p + 1) <= n,
                    n >= 1,
            ;
        } else {
            assert(s == p);
            assert(s * s <= n && n < (s + 1) * (s + 1) && s <= n) by (nonlinear_arith)
                requires
                    s == p,
                    p * p <= n - 1,
                    p <= n - 1,
                    !((p + 1) * (p + 1) <= n),
                    n >= 1,
            ;
        }
    }
}

/// Any `r` with `r * r <= n < (r + 1) * (r + 1)` is the square root.
pub proof fn lemma_sqrt_floor_unique(n: nat, r: nat)
    requires
        r * r <= n,
        n < (r + 1) * (r + 1),
    ensures
        r == sqrt_floor(n),
{
    let s = sqrt_floor(n);
    lemma_sqrt_floor_bounds(n);
    assert(r == s) by (nonlinear_arith)
        requires
            r * r <= n,
            n < (r + 1) * (r + 1),
            s * s <= n,
            n < (s + 1) * (s + 1),
    ;
}

/// Binary-search integer square root.
pub fn isqrt(n: u64) -> (r: u64)
    ensures
        r == sqrt_floor(n as nat),
        r * r <= n,
{
    proof {
        lemma_sqrt_floor_bounds(n as nat);
    }
    let mut lo: u64 = 0;
    // The root lies in [lo, hi): lo * lo <= n < hi * hi, since
    // 2^32 * 2^32 exceeds every u64.
    let mut hi: u64 = 0x1_0000_0000;
    assert(n < 0x1_0000_0000u64 * 0x1_0000_0000u64);
    while hi - lo > 1
        invariant
            lo < hi,
            lo * lo <= n,
            n < hi * hi,
            hi <= 0x1_0000_0000,
        decreases hi - lo,
    {
        let mid = lo + (hi - lo) / 2;
        proof {
            assert(mid * mid <= 0x1_0000_0000u64 * 0x1_0000_0000u64) by (nonlinear_arith)
                requires
                    0 <= mid <= 0x1_0000_0000u64,
            ;
        }
        if (mid as u128) * (mid as u128) <= n as u128 {
            lo = mid;
        } else {
            hi = mid;
        }
    }
    proof {
        lemma_sqrt_floor_unique(n as nat, lo as nat);
    }
    lo
}

/// Truncated (toward zero) `a * b / d` on mathematical integers.
pub open spec fn muldiv(a: int, b: int, d: int) -> int {
    let p = a * b;
    if p >= 0 {
        p / d
    } else {
        -((-p) / d)
    }
}

pub proof fn lemma_muldiv_bound(a: int, b: int, d: int, cap: int)
    requires
        d >= 1,
        -cap <= a * b <= cap,
        0 <= cap,
    ensures
        -cap <= muldiv(a, b, d) <= cap,
{
    let p = a * b;
    if p >= 0 {
        assert(0 <= p / d <= p) by (nonlinear_arith)
            requires
                d >= 1,
                p >= 0,
        ;
    } else {
        assert(0 <= (-p) / d <= -p) by (nonlinear_arith)
            requires
                d >= 1,
                -p >= 0,
        ;
    }
}

/// `a * b / d` with truncation toward zero, carried out in 128-bit
/// intermediates so the product cannot overflow.
pub fn mul_div(a: i64, b: i64, d: i64) -> (r: i64)
    requires
        d >= 1,
        -0x7FFF_FFFF_FFFF_FFFF <= a * b <= 0x7FFF_FFFF_FFFF_FFFF,
    ensures
        r == muldiv(a as int, b as int, d as int),
{
    let p: i128 = (a as i128) * (b as i128);
    proof {
        lemma_muldiv_bound(a as int, b as int, d as int, 0x7FFF_FFFF_FFFF_FFFF);
    }
    // Divide the magnitude, then restore the sign: this is truncation
    // toward zero whatever the sign of the product.
    let mag: u128 = if p >= 0 {
        p as u128
    } else {
        (-p) as u128
    };
    let q: u128 = mag / (d as u128);
    proof {
        assert(q <= mag) by (nonlinear_arith)
            requires
                d >= 1,
                q == mag as int / d as int,
        ;
    }
    if p >= 0 {
        q as i64
    } else {
        -(q as i64)
    }
}

/// `v` forced into `[lo, hi]`; `lo` wins if the interval is empty.
pub open spec fn clamp_spec(v: int, lo: int, hi: int) -> int {
    if v < lo {
        lo
    } else if v > hi {
        hi
    } else {
        v
    }
}

pub fn clamp64(v: i64, lo: i64, hi: i64) -> (r: i64)
    requires
        lo <= hi,
    ensures
        r == clamp_spec(v as int, lo as int, hi as int),
        lo <= r <= hi,
{
    if v < lo {
        lo
    } else if v > hi {
        hi
    } else {
        v
    }
}

/// A component of a vector is no longer than the vector.
pub proof fn lemma_sqrt_ge(k: int, m: nat)
    requires
        k >= 0,
        k * k <= m,
    ensures
        sqrt_floor(m) >= k,
{
    lemma_sqrt_floor_bounds(m);
    let s = sqrt_floor(m);
    assert(s >= k) by (nonlinear_arith)
        requires
            k >= 0,
            k * k <= m,
            m < (s + 1) * (s + 1),
    ;
}

/// Scaling by `b / d` cannot grow a value past `b` when it was within
/// `d` to begin with.
pub proof fn lemma_muldiv_ratio_bound(a: int, b: int, d: int)
    requires
        d >= 1,
        -d <= a <= d,
        b >= 0,
    ensures
        -b <= muldiv(a, b, d) <= b,
{
    let p = a * b;
    assert(-(d * b) <= p <= d * b) by (nonlinear_arith)
        requires
            p == a * b,
            d >= 1,
            -d <= a <= d,
            b >= 0,
    ;
    if p >= 0 {
        assert(p / d <= b && p / d >= 0) by (nonlinear_arith)
            requires
                d >= 1,
                0 <= p <= d * b,
                b >= 0,
        ;
    } else {
        assert((-p) / d <= b && (-p) / d >= 0) by (nonlinear_arith)
            requires
                d >= 1,
                0 <= -p <= d * b,
                b >= 0,
        ;
    }
}

/// Scaling by `b / d` with `b <= d` keeps a value on its own side of
/// zero and no farther out.
pub proof fn lemma_muldiv_scale_bound(a: int, b: int, d: int)
    requires
        d >= 1,
        0 <= b <= d,
    ensures
        a >= 0 ==> 0 <= muldiv(a, b, d) <= a,
        a < 0 ==> a <= muldiv(a, b, d) <= 0,
{
    let p = a * b;
    if a >= 0 {
        assert(0 <= p <= a * d) by (nonlinear_arith)
            requires
                p == a * b,
                a >= 0,
                0 <= b <= d,
        ;
        assert(0 <= p / d <= a) by (nonlinear_arith)
            requires
                d >= 1,
                0 <= p,
                p <= a * d,
        ;
    } else {
        assert(0 <= -p && -p <= (-a) * d) by (nonlinear_arith)
            requires
                p == a * b,
                a < 0,
                0 <= b <= d,
        ;
        assert(0 <= (-p) / d <= -a) by (nonlinear_arith)
            requires
                d >= 1,
                0 <= -p,
                -p <= (-a) * d,
        ;
    }
}

} // verus!
