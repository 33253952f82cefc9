//! The cyclic distance metric: the first grid axis wraps at 360, the second
//! is linear, and the final distance is the integer-truncated square root of
//! the sum of squared per-axis distances. The truncation is a deliberate,
//! reproducible convention of the metric, not an approximation artifact.

use vstd::prelude::*;

verus! {

/// Number of cells along the cyclic axis.
pub const H_SIZE: usize = 360;

/// Number of cells along the linear axis.
pub const V_SIZE: usize = 100;

/// The smaller of two integers.
pub open spec fn min_i(a: int, b: int) -> int {
    if a <= b {
        a
    } else {
        b
    }
}

/// The absolute difference of two integers.
pub open spec fn abs_diff(a: int, b: int) -> int {
    if a >= b {
        a - b
    } else {
        b - a
    }
}

/// Distance along the cyclic axis: the smaller of the direct difference and
/// the around-the-back distance through the wrap boundary at 360.
pub open spec fn h_distance(h1: int, h2: int) -> int {
    min_i(abs_diff(h1, h2), min_i(360 - h1 + h2, 360 - h2 + h1))
}

/// Distance along the linear axis: the absolute difference.
pub open spec fn v_distance(v1: int, v2: int) -> int {
    abs_diff(v1, v2)
}

/// The integer square root, rounding down: the largest `r` with `r * r <= n`
/// (and `0` for negative `n`, which no caller reaches).
pub open spec fn sqrt_floor(n: int) -> int
    decreases n,
{
    if n <= 0 {
        0
    } else {
        let r = sqrt_floor(n - 1);
        if (r + 1) * (r + 1) <= n {
            r + 1
        } else {
            r
        }
    }
}

/// `sqrt_floor(n)` is the unique `r >= 0` with `r * r <= n < (r+1) * (r+1)`.
pub proof fn lemma_sqrt_floor_bounds(n: int)
    requires
        n >= 0,
    ensures
        0 <= sqrt_floor(n),
        sqrt_floor(n) * sqrt_floor(n) <= n,
        n < (sqrt_floor(n) + 1) * (sqrt_floor(n) + 1),
    decreases n,
{
    if n > 0 {
        lemma_sqrt_floor_bounds(n - 1);
        let r = sqrt_floor(n - 1);
        if (r + 1) * (r + 1) <= n {
            assert(n < (r + 2) * (r + 2)) by (nonlinear_arith)
                requires
                    r >= 0,
                    n - 1 < (r + 1) * (r + 1),
                    (r + 1) * (r + 1) <= n,
            ;
        }
    }
}

/// Any `r >= 0` with `r * r <= n < (r+1) * (r+1)` equals `sqrt_floor(n)`.
pub proof fn lemma_sqrt_floor_unique(n: int, r: int)
    requires
        0 <= r,
        r * r <= n,
        n < (r + 1) * (r + 1),
    ensures
        r == sqrt_floor(n),
{
    let s = sqrt_floor(n);
    lemma_sqrt_floor_bounds(n);
    if r < s {
        assert((r + 1) * (r + 1) <= s * s) by (nonlinear_arith)
            requires
                0 <= r + 1 <= s,
        ;
    }
    if s < r {
        assert((s + 1) * (s + 1) <= r * r) by (nonlinear_arith)
            requires
                0 <= s + 1 <= r,
        ;
    }
}

/// The view of a grid coordinate as a pair of mathematical integers.
pub open spec fn coord_view(c: (usize, usize)) -> (int, int) {
    (c.0 as int, c.1 as int)
}

/// A coordinate lies on the grid: cyclic axis below 360, linear axis below
/// 100.
pub open spec fn coord_in_range(c: (usize, usize)) -> bool {
    c.0 < H_SIZE && c.1 < V_SIZE
}

/// The cyclic distance between two coordinates.
pub open spec fn distance(a: (int, int), b: (int, int)) -> int {
    let hd = h_distance(a.0, b.0);
    let vd = v_distance(a.1, b.1);
    sqrt_floor(hd * hd + vd * vd)
}

/// The distance metric is symmetric in its two arguments.
pub proof fn lemma_distance_symmetric(a: (int, int), b: (int, int))
    ensures
        distance(a, b) == distance(b, a),
{
}

/// The distance from any coordinate to itself is zero.
pub proof fn lemma_distance_self(a: (int, int))
    ensures
        distance(a, a) == 0,
{
    assert(h_distance(a.0, a.0) == 0);
    assert(v_distance(a.1, a.1) == 0);
}

/// The cyclic axis wraps: coordinates at cyclic positions 0 and 359 are at
/// distance 1, exactly as positions 0 and 1 are, for every linear position.
pub proof fn lemma_distance_wrap(v: int)
    ensures
        distance((0, v), (359, v)) == 1,
        distance((0, v), (1, v)) == 1,
{
    assert(h_distance(0, 359) == 1);
    assert(h_distance(0, 1) == 1);
    assert(v_distance(v, v) == 0);
    lemma_sqrt_floor_unique(1, 1);
}

/// Two on-grid coordinates are at distance zero exactly when they are equal.
pub proof fn lemma_distance_zero_iff_eq(a: (usize, usize), b: (usize, usize))
    requires
        coord_in_range(a),
        coord_in_range(b),
    ensures
        (distance(coord_view(a), coord_view(b)) == 0) <==> (a == b),
{
    let hd = h_distance(a.0 as int, b.0 as int);
    let vd = v_distance(a.1 as int, b.1 as int);
    assert(hd >= 0 && vd >= 0);
    assert(hd * hd >= 0 && vd * vd >= 0) by (nonlinear_arith)
        requires
            hd >= 0 && vd >= 0,
    ;
    if a == b {
        lemma_distance_self(coord_view(a));
    } else {
        assert(hd > 0 || vd > 0);
        assert(hd * hd + vd * vd > 0) by (nonlinear_arith)
            requires
                hd >= 0 && vd >= 0,
                hd > 0 || vd > 0,
        ;
        lemma_sqrt_floor_bounds(hd * hd + vd * vd);
        if sqrt_floor(hd * hd + vd * vd) == 0 {
            assert(hd * hd + vd * vd < 1);
        }
    }
}

/// The distance metric is non-negative.
pub proof fn lemma_distance_nonneg(a: (int, int), b: (int, int))
    ensures
        distance(a, b) >= 0,
{
    let hd = h_distance(a.0, b.0);
    let vd = v_distance(a.1, b.1);
    assert(hd * hd >= 0 && vd * vd >= 0) by (nonlinear_arith);
    lemma_sqrt_floor_bounds(hd * hd + vd * vd);
}

/// The integer square root, rounding down.
fn isqrt(n: u32) -> (r: u32)
    ensures
        r == sqrt_floor(n as int),
{
    let mut r: u32 = 0;
    while (r as u64 + 1) * (r as u64 + 1) <= n as u64
        invariant
            r * r <= n,
            r <= 0xFFFF,
            (r as int + 1) * (r as int + 1) <= 0x100000000,
        decreases n - r,
    {
        proof {
            assert(r + 1 <= 0xFFFF && r + 1 <= n) by (nonlinear_arith)
                requires
                    (r as int + 1) * (r as int + 1) <= n as int,
                    n <= 0xFFFFFFFFu32,
                    r >= 0,
            ;
        }
        r = r + 1;
        proof {
            assert((r as int + 1) * (r as int + 1) <= 0x100000000) by (nonlinear_arith)
                requires
                    r as int + 1 <= 0x10000,
            ;
        }
    }
    proof {
        lemma_sqrt_floor_unique(n as int, r as int);
    }
    r
}

/// The cyclic distance between two on-grid coordinates.
pub fn calc_distance(cord: (usize, usize), target: &(usize, usize)) -> (r: i32)
    requires
        coord_in_range(cord),
        coord_in_range(*target),
    ensures
        r == distance(coord_view(cord), coord_view(*target)),
        0 <= r <= 380,
{
    let h1 = cord.0 as i32;
    let v1 = cord.1 as i32;
    let h2 = target.0 as i32;
    let v2 = target.1 as i32;

    let direct = if h1 >= h2 {
        h1 - h2
    } else {
        h2 - h1
    };
    let back1 = 360 - h1 + h2;
    let back2 = 360 - h2 + h1;
    let around = if back1 <= back2 {
        back1
    } else {
        back2
    };
    let hd = if direct <= around {
        direct
    } else {
        around
    };
    let vd = if v1 >= v2 {
        v1 - v2
    } else {
        v2 - v1
    };

    proof {
        assert(0 <= hd <= 359 && 0 <= vd <= 99);
        assert(0 <= hd * hd && 0 <= vd * vd && hd * hd + vd * vd <= 360 * 360 + 100 * 100)
            by (nonlinear_arith)
            requires
                0 <= hd <= 359,
                0 <= vd <= 99,
        ;
    }
    let n = (hd * hd + vd * vd) as u32;
    let r = isqrt(n);
    proof {
        lemma_sqrt_floor_bounds(n as int);
        assert(sqrt_floor(n as int) <= 380) by (nonlinear_arith)
            requires
                n <= 360 * 360 + 100 * 100,
                sqrt_floor(n as int) * sqrt_floor(n as int) <= n,
                sqrt_floor(n as int) >= 0,
        ;
    }
    r as i32
}

} // verus!
