use vstd::prelude::*;

verus! {

/// |a * b| is at most the product of bounds on |a| and |b|.
pub proof fn lemma_mul_abs_bound(a: int, b: int, bound_a: int, bound_b: int)
    requires
        -bound_a <= a <= bound_a,
        -bound_b <= b <= bound_b,
        0 <= bound_a,
        0 <= bound_b,
    ensures
        -(bound_a * bound_b) <= a * b <= bound_a * bound_b,
{
    assert(-(bound_a * bound_b) <= a * b <= bound_a * bound_b) by (nonlinear_arith)
        requires
            -bound_a <= a <= bound_a,
            -bound_b <= b <= bound_b,
            0 <= bound_a,
            0 <= bound_b,
    ;
}

/// Exact product of two machine integers, computed in the wider type.
pub fn mul64(a: i64, b: i64) -> (r: i128)
    ensures
        r == a * b,
{
    proof {
        lemma_mul_abs_bound(a as int, b as int, 0x8000_0000_0000_0000, 0x8000_0000_0000_0000);
    }
    (a as i128) * (b as i128)
}

/// Exact square of a wide integer that is known to be moderate in size.
pub fn sq_wide(a: i128) -> (r: i128)
    requires
        -0x8000_0000_0000_0000 <= a <= 0x8000_0000_0000_0000,
    ensures
        r == a * a,
{
    proof {
        lemma_mul_abs_bound(a as int, a as int, 0x8000_0000_0000_0000, 0x8000_0000_0000_0000);
    }
    a * a
}

/// Exact product of a small wide integer with a moderate wide integer.
pub fn mul_wide(a: i128, b: i128) -> (r: i128)
    requires
        -0x4_0000_0000_0000 <= a <= 0x4_0000_0000_0000,
        -0x1000_0000_0000_0000_0000 <= b <= 0x1000_0000_0000_0000_0000,
    ensures
        r == a * b,
{
    proof {
        lemma_mul_abs_bound(a as int, b as int, 0x4_0000_0000_0000, 0x1000_0000_0000_0000_0000);
    }
    a * b
}

/// Absolute value of a mathematical integer.
pub open spec fn abs_int(a: int) -> int {
    if a >= 0 {
        a
    } else {
        -a
    }
}

/// The floor of the square root of a non-negative integer.
pub open spec fn sqrt_floor(n: int) -> int
    decreases n,
{
    if n <= 0 {
        0
    } else {
        let r = sqrt_floor(n - 1);
        if (r + 1) * (r + 1) <= n {
            r + 1
        } else {
            r
        }
    }
}

/// `sqrt_floor(n)` is the unique `r >= 0` with `r * r <= n < (r + 1) * (r + 1)`.
pub proof fn lemma_sqrt_floor_bounds(n: int)
    requires
        n >= 0,
    ensures
        sqrt_floor(n) >= 0,
        sqrt_floor(n) * sqrt_floor(n) <= n,
        n < (sqrt_floor(n) + 1) * (sqrt_floor(n) + 1),
    decreases n,
{
    if n == 0 {
    } else {
        lemma_sqrt_floor_bounds(n - 1);
        let r = sqrt_floor(n - 1);
        if (r + 1) * (r + 1) <= n {
            assert(n - 1 < (r + 1) * (r + 1));
            assert((r + 2) * (r + 2) > (r + 1) * (r + 1)) by (nonlinear_arith)
                requires r >= 0;
        } else {
        }
    }
}

/// Any `r >= 0` with `r * r <= n < (r + 1) * (r + 1)` equals `sqrt_floor(n)`.
pub proof fn lemma_sqrt_floor_unique(n: int, r: int)
    requires
        n >= 0,
        r >= 0,
        r * r <= n,
        n < (r + 1) * (r + 1),
    ensures
        r == sqrt_floor(n),
{
    lemma_sqrt_floor_bounds(n);
    let s = sqrt_floor(n);
    if r < s {
        assert((r + 1) * (r + 1) <= s * s) by (nonlinear_arith)
            requires 0 <= r + 1 <= s;
    }
    if s < r {
        assert((s + 1) * (s + 1) <= r * r) by (nonlinear_arith)
            requires 0 <= s + 1 <= r;
    }
}

/// Integer square root by binary search: the floor of the square root.
pub fn isqrt(n: i128) -> (r: i64)
    requires
        0 <= n < 0x1000_0000_0000_0000_0000_0000_0000_0000,
    ensures
        r == sqrt_floor(n as int),
        0 <= r,
        r * r <= n,
        n < (r + 1) * (r + 1),
{
    let mut lo: i64 = 0;
    let mut hi: i64 = 0x4000_0000_0000_0000;
    proof {
        assert((0x4000_0000_0000_0001 as int) * (0x4000_0000_0000_0001 as int)
            > 0x1000_0000_0000_0000_0000_0000_0000_0000);
    }
    while lo < hi
        invariant
            0 <= lo <= hi <= 0x4000_0000_0000_0000,
            lo * lo <= n,
            n < (hi + 1) * (hi + 1),
        decreases hi - lo,
    {
        let mid: i64 = lo + (hi - lo + 1) / 2;
        let msq: i128 = mul64(mid, mid);
        if msq <= n {
            lo = mid;
        } else {
            hi = mid - 1;
        }
    }
    proof {
        lemma_sqrt_floor_unique(n as int, lo as int);
    }
    lo
}

/// Division that truncates toward zero, as a specification value.
pub open spec fn div_trunc_spec(a: int, b: int) -> int
    recommends
        b > 0,
{
    if a >= 0 {
        a / b
    } else {
        -((-a) / b)
    }
}

/// Division of a wide integer by a positive wide integer, truncating toward
/// zero.
pub fn div_trunc(a: i128, b: i128) -> (r: i128)
    requires
        b > 0,
        a != i128::MIN,
    ensures
        r == div_trunc_spec(a as int, b as int),
        abs_int(r as int) <= abs_int(a as int),
{
    if a >= 0 {
        let q: u128 = (a as u128) / (b as u128);
        proof {
            assert(q <= a as u128) by (nonlinear_arith)
                requires q == (a as u128) / (b as u128), b as u128 >= 1;
        }
        q as i128
    } else {
        let ua: u128 = (-a) as u128;
        let q: u128 = ua / (b as u128);
        proof {
            assert(q <= ua) by (nonlinear_arith)
                requires q == ua / (b as u128), b as u128 >= 1;
        }
        -(q as i128)
    }
}

/// The truncated average of values bounded by `limit` is bounded by `limit`.
pub proof fn lemma_avg_in_range(sum: int, n: int, limit: int)
    requires
        n > 0,
        0 <= limit,
        -(n * limit) <= sum <= n * limit,
    ensures
        -limit <= div_trunc_spec(sum, n) <= limit,
{
    if sum >= 0 {
        assert(sum / n <= limit) by (nonlinear_arith)
            requires n > 0, 0 <= sum <= n * limit, 0 <= limit;
        assert(sum / n >= 0) by (nonlinear_arith)
            requires n > 0, sum >= 0;
    } else {
        assert((-sum) / n <= limit) by (nonlinear_arith)
            requires n > 0, 0 <= -sum <= n * limit, 0 <= limit;
        assert((-sum) / n >= 0) by (nonlinear_arith)
            requires n > 0, -sum >= 0;
    }
}

} // verus!
