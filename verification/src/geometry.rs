//! Integer 2D vector geometry: squared distances, an exact integer square
//! root, and normalization of a vector to a requested speed.
//!
//! Positions live in `[-COORD_BOUND, COORD_BOUND]` on each axis, so every
//! difference of two positions fits comfortably in `i64` arithmetic. A
//! vector is rescaled to a speed by first up-scaling it by 1024 (so the
//! rounding error of the integer square root is small relative to the
//! length) and then dividing each component by the integer length.

use vstd::prelude::*;

verus! {

/// Half-width of the square world region the core accepts positions in.
pub const COORD_BOUND: i64 = 1_000_000;

/// Largest speed a vector may be rescaled to.
pub const SPEED_BOUND: i64 = 1000;

/// A 2D vector with integer components, used for positions and velocities.
#[derive(Clone, Copy, Debug, PartialEq, Eq, Structural)]
pub struct Vec2 {
    pub x: i64,
    pub y: i64,
}

/// Absolute value of an integer.
pub open spec fn abs_val(x: int) -> int {
    if x < 0 { -x } else { x }
}

/// Squared Euclidean length of `v`.
pub open spec fn norm2(v: Vec2) -> int {
    v.x * v.x + v.y * v.y
}

/// Whether a position lies in the accepted world region.
pub open spec fn in_world(v: Vec2) -> bool {
    -COORD_BOUND <= v.x <= COORD_BOUND && -COORD_BOUND <= v.y <= COORD_BOUND
}

/// Whether a vector is small enough to be a difference of two world
/// positions.
pub open spec fn delta_bounded(v: Vec2) -> bool {
    abs_val(v.x as int) <= 2 * COORD_BOUND && abs_val(v.y as int) <= 2 * COORD_BOUND
}

/// `m` is the integer square root of `n`: the largest integer whose square
/// does not exceed `n`.
pub open spec fn is_isqrt(n: int, m: int) -> bool {
    0 <= m && m * m <= n && n < (m + 1) * (m + 1)
}

/// The integer square root of `n`, for `n >= 0`.
pub open spec fn isqrt_of(n: int) -> int {
    choose|m: int| is_isqrt(n, m)
}

/// Every non-negative integer has an integer square root, and `isqrt_of`
/// denotes it.
pub proof fn lemma_isqrt_exists(n: int)
    requires
        0 <= n,
    ensures
        is_isqrt(n, isqrt_of(n)),
    decreases n,
{
    if n == 0 {
        assert(is_isqrt(0, 0));
    } else {
        lemma_isqrt_exists(n - 1);
        let m = isqrt_of(n - 1);
        if (m + 1) * (m + 1) <= n {
            assert(is_isqrt(n, m + 1)) by (nonlinear_arith)
                requires
                    is_isqrt(n - 1, m),
                    (m + 1) * (m + 1) <= n,
            ;
            assert(is_isqrt(n, isqrt_of(n)));
        } else {
            assert(is_isqrt(n, m));
            assert(is_isqrt(n, isqrt_of(n)));
        }
    }
}

/// The integer square root is unique.
pub proof fn lemma_isqrt_unique(n: int, a: int, b: int)
    by (nonlinear_arith)
    requires
        is_isqrt(n, a),
        is_isqrt(n, b),
    ensures
        a == b,
{
}

/// Taking square roots respects order: a square below `n` bounds the root.
pub proof fn lemma_isqrt_at_least(n: int, k: int)
    by (nonlinear_arith)
    requires
        0 <= k,
        k * k <= n,
        is_isqrt(n, isqrt_of(n)),
    ensures
        isqrt_of(n) >= k,
{
}

/// Exact integer square root of a `u64`, by binary search.
pub fn isqrt64(n: u64) -> (r: u64)
    ensures
        r == isqrt_of(n as int),
        is_isqrt(n as int, r as int),
{
    let mut lo: u64 = 0;
    let mut hi: u64 = 0x1_0000_0000;
    while lo + 1 < hi
        invariant
            lo < hi <= 0x1_0000_0000,
            lo * lo <= n,
            n < hi * hi,
        decreases hi - lo,
    {
        let mid = lo + (hi - lo) / 2;
        assert(mid * mid <= 0xFFFF_FFFFu64 * 0xFFFF_FFFFu64) by (nonlinear_arith)
            requires
                mid <= 0xFFFF_FFFFu64,
        ;
        if mid * mid <= n {
            lo = mid;
        } else {
            hi = mid;
        }
    }
    proof {
        lemma_isqrt_exists(n as int);
        lemma_isqrt_unique(n as int, lo as int, isqrt_of(n as int));
    }
    lo
}

/// Squared length of `v` after both components are up-scaled by 1024.
pub open spec fn scaled_norm2(v: Vec2) -> int {
    1048576 * norm2(v)
}

/// Integer length of the up-scaled vector.
pub open spec fn scale_len(v: Vec2) -> int {
    isqrt_of(scaled_norm2(v))
}

/// Magnitude of one component of a vector rescaled to speed `s`:
/// the up-scaled component magnitude `a * 1024`, multiplied by `s` and
/// divided (rounding down) by the up-scaled length `m`.
pub open spec fn scale_mag(a: int, s: int, m: int) -> int {
    (a * 1024 * s) / m
}

/// The x component of `v` rescaled to speed `s`.
pub open spec fn scale_x(v: Vec2, s: int) -> int {
    let q = scale_mag(abs_val(v.x as int), abs_val(s), scale_len(v));
    if (v.x < 0) != (s < 0) {
        -q
    } else {
        q
    }
}

/// The y component of `v` rescaled to speed `s`.
pub open spec fn scale_y(v: Vec2, s: int) -> int {
    let q = scale_mag(abs_val(v.y as int), abs_val(s), scale_len(v));
    if (v.y < 0) != (s < 0) {
        -q
    } else {
        q
    }
}

/// `v` rescaled to speed `s`, both components at once.
pub open spec fn scale_vec(v: Vec2, s: int) -> Vec2 {
    Vec2 { x: scale_x(v, s) as i64, y: scale_y(v, s) as i64 }
}

/// A square strictly below the next square bounds the root.
proof fn lemma_root_le(a: int, b: int)
    by (nonlinear_arith)
    requires
        0 <= a,
        0 <= b,
        a * a < (b + 1) * (b + 1),
    ensures
        a <= b,
{
}

/// Dividing `a * s` by `m` cannot exceed `s` when `a <= m`.
proof fn lemma_scaled_div_le(a: int, s: int, m: int)
    by (nonlinear_arith)
    requires
        0 <= a <= m,
        0 <= s,
        1 <= m,
    ensures
        0 <= (a * s) / m <= s,
{
}

/// Core of the lower speed bound: subtracting one `m` of rounding loss
/// from each component still leaves almost the full squared speed.
#[verifier::rlimit(100)]
proof fn lemma_lower_core(p: int, q: int, m: int, sa: int)
    by (nonlinear_arith)
    requires
        p * p + q * q >= (sa * m) * (sa * m),
        p <= m * sa,
        q <= m * sa,
        p >= m,
        q >= m,
        m >= 1,
        sa >= 2,
    ensures
        (p - m) * (p - m) + (q - m) * (q - m) >= m * m * ((sa - 2) * (sa - 2) - 2),
{
}

/// Rescaling a non-zero vector to speed `s` hits that speed up to integer
/// rounding: the squared length of the result lies strictly below
/// `(|s| + 1)^2` and at least at `(|s| - 2)^2 - 2`. Each component keeps
/// the sign of the corresponding input component (flipped for negative
/// `s`), so the result points along the input vector.
pub proof fn lemma_scale_norm2(v: Vec2, s: int)
    requires
        delta_bounded(v),
        !(v.x == 0 && v.y == 0),
        2 <= abs_val(s) <= SPEED_BOUND,
    ensures
        norm2(scale_vec(v, s)) < (abs_val(s) + 1) * (abs_val(s) + 1),
        norm2(scale_vec(v, s)) >= (abs_val(s) - 2) * (abs_val(s) - 2) - 2,
        abs_val(scale_x(v, s)) <= abs_val(s),
        abs_val(scale_y(v, s)) <= abs_val(s),
        s > 0 ==> (v.x < 0 ==> scale_x(v, s) <= 0) && (v.x > 0 ==> scale_x(v, s) >= 0)
            && (v.y < 0 ==> scale_y(v, s) <= 0) && (v.y > 0 ==> scale_y(v, s) >= 0),
{
    let sa = abs_val(s);
    let ax = abs_val(v.x as int);
    let ay = abs_val(v.y as int);
    let n = scaled_norm2(v);
    let a = ax * 1024;
    let b = ay * 1024;
    assert(n == a * a + b * b && n >= 1048576 && a >= 0 && b >= 0) by (nonlinear_arith)
        requires
            ax == abs_val(v.x as int),
            ay == abs_val(v.y as int),
            a == ax * 1024,
            b == ay * 1024,
            !(v.x == 0 && v.y == 0),
            n == 1048576 * (v.x * v.x + v.y * v.y),
    ;
    lemma_isqrt_exists(n);
    let m = scale_len(v);
    lemma_isqrt_at_least(n, 1024);
    assert(a * a <= n && b * b <= n) by (nonlinear_arith)
        requires
            n == a * a + b * b,
            a >= 0,
            b >= 0,
    ;
    lemma_root_le(a, m);
    lemma_root_le(b, m);
    let qx = scale_mag(ax, sa, m);
    let qy = scale_mag(ay, sa, m);
    assert(qx == (a * sa) / m && qy == (b * sa) / m);
    lemma_scaled_div_le(a, sa, m);
    lemma_scaled_div_le(b, sa, m);
    let p = a * sa;
    let q = b * sa;
    assert(m * qx <= p && p < m * (qx + 1) && m * qy <= q && q < m * (qy + 1) && p >= 0
        && q >= 0) by (nonlinear_arith)
        requires
            qx == p / m,
            qy == q / m,
            m >= 1,
            p == a * sa,
            q == b * sa,
            a >= 0,
            b >= 0,
            sa >= 0,
    ;
    // The result's squared length is qx^2 + qy^2 whatever the signs.
    assert(norm2(scale_vec(v, s)) == qx * qx + qy * qy) by (nonlinear_arith)
        requires
            0 <= qx <= 1000,
            0 <= qy <= 1000,
            norm2(scale_vec(v, s)) == (scale_x(v, s) as i64) * (scale_x(v, s) as i64) + (
            scale_y(v, s) as i64) * (scale_y(v, s) as i64),
            scale_x(v, s) == qx || scale_x(v, s) == -qx,
            scale_y(v, s) == qy || scale_y(v, s) == -qy,
    ;
    // Upper bound: m^2 (qx^2 + qy^2) <= sa^2 n < ((sa + 1) m)^2.
    assert(m * m * (qx * qx + qy * qy) <= sa * sa * n) by (nonlinear_arith)
        requires
            m * qx <= a * sa,
            m * qy <= b * sa,
            qx >= 0,
            qy >= 0,
            m >= 1,
            a >= 0,
            b >= 0,
            sa >= 0,
            n == a * a + b * b,
    ;
    assert(sa * sa * n < ((sa + 1) * m) * ((sa + 1) * m)) by (nonlinear_arith)
        requires
            n < (m + 1) * (m + 1),
            0 <= sa <= m,
            m >= 1,
            n >= 0,
    ;
    assert(qx * qx + qy * qy < (sa + 1) * (sa + 1)) by (nonlinear_arith)
        requires
            m * m * (qx * qx + qy * qy) < ((sa + 1) * m) * ((sa + 1) * m),
            m >= 1,
            qx >= 0,
            qy >= 0,
            sa >= 0,
    ;
    // Lower bound, by cases on whether a component floors to zero range.
    assert(sa * sa * n >= (sa * m) * (sa * m)) by (nonlinear_arith)
        requires
            n >= m * m,
            sa >= 0,
            m >= 0,
    ;
    assert(m * qx > p - m && m * qy > q - m) by (nonlinear_arith)
        requires
            p < m * (qx + 1),
            q < m * (qy + 1),
    ;
    assert(p <= m * sa && q <= m * sa) by (nonlinear_arith)
        requires
            p == a * sa,
            q == b * sa,
            a <= m,
            b <= m,
            sa >= 0,
    ;
    assert(p * p + q * q >= (sa * m) * (sa * m)) by (nonlinear_arith)
        requires
            p == a * sa,
            q == b * sa,
            n == a * a + b * b,
            sa * sa * n >= (sa * m) * (sa * m),
    ;
    if p >= m && q >= m {
        assert(m * m * (qx * qx + qy * qy) >= (p - m) * (p - m) + (q - m) * (q - m))
            by (nonlinear_arith)
            requires
                m * qx > p - m,
                m * qy > q - m,
                p >= m,
                q >= m,
                m >= 1,
                qx >= 0,
                qy >= 0,
        ;
        lemma_lower_core(p, q, m, sa);
        assert(qx * qx + qy * qy >= (sa - 2) * (sa - 2) - 2) by (nonlinear_arith)
            requires
                m * m * (qx * qx + qy * qy) >= m * m * ((sa - 2) * (sa - 2) - 2),
                m >= 1,
        ;
    } else {
        // One product is below m; the other then carries nearly the whole
        // length, and its quotient alone reaches sa - 1.
        assert(p * p + q * q == sa * sa * n) by (nonlinear_arith)
            requires
                p == a * sa,
                q == b * sa,
                n == a * a + b * b,
        ;
        if p < m {
            assert(q > m * (sa - 1)) by (nonlinear_arith)
                requires
                    p * p + q * q >= (sa * m) * (sa * m),
                    p < m,
                    p >= 0,
                    q >= 0,
                    m >= 1,
                    sa >= 2,
            ;
            assert(qy >= sa - 1) by (nonlinear_arith)
                requires
                    m * (qy + 1) > q,
                    q > m * (sa - 1),
                    m >= 1,
            ;
            assert(qx * qx + qy * qy >= (sa - 2) * (sa - 2) - 2) by (nonlinear_arith)
                requires
                    qy >= sa - 1,
                    qx >= 0,
                    sa >= 2,
            ;
        } else {
            assert(q < m);
            assert(p > m * (sa - 1)) by (nonlinear_arith)
                requires
                    p * p + q * q >= (sa * m) * (sa * m),
                    q < m,
                    q >= 0,
                    p >= 0,
                    m >= 1,
                    sa >= 2,
            ;
            assert(qx >= sa - 1) by (nonlinear_arith)
                requires
                    m * (qx + 1) > p,
                    p > m * (sa - 1),
                    m >= 1,
            ;
            assert(qx * qx + qy * qy >= (sa - 2) * (sa - 2) - 2) by (nonlinear_arith)
                requires
                    qx >= sa - 1,
                    qy >= 0,
                    sa >= 2,
            ;
        }
    }
}

/// Rescale the non-zero vector `v` to speed `s`: the result points the
/// same way as `v` (opposite for negative `s`) and each component is the
/// exact rounded-down value of `v`'s component times `s` over `v`'s
/// length. Component magnitudes never exceed `abs_val(s)`.
pub fn scale_to(v: Vec2, s: i64) -> (w: Vec2)
    requires
        delta_bounded(v),
        !(v.x == 0 && v.y == 0),
        -SPEED_BOUND <= s <= SPEED_BOUND,
    ensures
        w.x == scale_x(v, s as int),
        w.y == scale_y(v, s as int),
        abs_val(w.x as int) <= abs_val(s as int),
        abs_val(w.y as int) <= abs_val(s as int),
{
    let ax: u64 = if v.x < 0 {
        (-v.x) as u64
    } else {
        v.x as u64
    };
    let ay: u64 = if v.y < 0 {
        (-v.y) as u64
    } else {
        v.y as u64
    };
    let sx: u64 = ax * 1024;
    let sy: u64 = ay * 1024;
    assert(sx * sx <= 2_048_000_000u64 * 2_048_000_000u64) by (nonlinear_arith)
        requires
            sx <= 2_048_000_000u64,
    ;
    assert(sy * sy <= 2_048_000_000u64 * 2_048_000_000u64) by (nonlinear_arith)
        requires
            sy <= 2_048_000_000u64,
    ;
    let n: u64 = sx * sx + sy * sy;
    assert(n == scaled_norm2(v)) by (nonlinear_arith)
        requires
            sx == abs_val(v.x as int) * 1024,
            sy == abs_val(v.y as int) * 1024,
            n == sx * sx + sy * sy,
    ;
    assert(n >= 1048576) by (nonlinear_arith)
        requires
            n == sx * sx + sy * sy,
            sx == abs_val(v.x as int) * 1024,
            sy == abs_val(v.y as int) * 1024,
            !(v.x == 0 && v.y == 0),
    ;
    let m: u64 = isqrt64(n);
    proof {
        lemma_isqrt_at_least(n as int, 1024);
        assert(sx * sx <= n);
        lemma_root_le(sx as int, m as int);
        lemma_root_le(sy as int, m as int);
    }
    let sa: u64 = if s < 0 {
        (-s) as u64
    } else {
        s as u64
    };
    proof {
        lemma_scaled_div_le(sx as int, sa as int, m as int);
        lemma_scaled_div_le(sy as int, sa as int, m as int);
    }
    assert(sx * sa <= 2_048_000_000u64 * 1000u64) by (nonlinear_arith)
        requires
            sx <= 2_048_000_000u64,
            sa <= 1000u64,
    ;
    assert(sy * sa <= 2_048_000_000u64 * 1000u64) by (nonlinear_arith)
        requires
            sy <= 2_048_000_000u64,
            sa <= 1000u64,
    ;
    let qx: u64 = sx * sa / m;
    let qy: u64 = sy * sa / m;
    let wx: i64 = if (v.x < 0) != (s < 0) {
        -(qx as i64)
    } else {
        qx as i64
    };
    let wy: i64 = if (v.y < 0) != (s < 0) {
        -(qy as i64)
    } else {
        qy as i64
    };
    Vec2 { x: wx, y: wy }
}

/// Difference `a - b` of two world positions.
pub fn vec_sub(a: Vec2, b: Vec2) -> (d: Vec2)
    requires
        in_world(a),
        in_world(b),
    ensures
        d.x == a.x - b.x,
        d.y == a.y - b.y,
        delta_bounded(d),
{
    Vec2 { x: a.x - b.x, y: a.y - b.y }
}

} // verus!
