//! Fixed-point 2D vectors.
//!
//! Coordinates are milli-units: `SCALE` milli-units make one world unit.
//! Directions are represented as vectors of length at most `SCALE`.
//! `normalize_or_zero` divides by `isqrt(norm_sq) + 1`, so it is total:
//! the zero vector maps to the zero vector and no division by zero can
//! occur, which realizes the normalize-or-zero semantics the steering
//! pipeline requires everywhere.

use vstd::prelude::*;

verus! {

/// Milli-units per world unit; also the length of a "unit" direction vector.
pub const SCALE: i64 = 1000;

/// Largest coordinate magnitude (in milli-units) a position or velocity may have.
pub const COORD_LIMIT: i64 = 1_000_000_000;

/// A fixed-point 2D vector (positions, velocities, directions, impulses).
#[derive(Clone, Copy, Debug, PartialEq, Eq, Structural)]
pub struct Vec2 {
    pub x: i64,
    pub y: i64,
}

impl Vec2 {
    /// The zero vector.
    pub fn zero() -> (r: Vec2)
        ensures
            r.x == 0 && r.y == 0,
    {
        Vec2 { x: 0, y: 0 }
    }

    /// Componentwise sum.
    pub fn plus(self, o: Vec2) -> (r: Vec2)
        requires
            i64::MIN <= self.x + o.x <= i64::MAX,
            i64::MIN <= self.y + o.y <= i64::MAX,
        ensures
            r.x == self.x + o.x,
            r.y == self.y + o.y,
    {
        Vec2 { x: self.x + o.x, y: self.y + o.y }
    }

    /// Componentwise difference.
    pub fn minus(self, o: Vec2) -> (r: Vec2)
        requires
            i64::MIN <= self.x - o.x <= i64::MAX,
            i64::MIN <= self.y - o.y <= i64::MAX,
        ensures
            r.x == self.x - o.x,
            r.y == self.y - o.y,
    {
        Vec2 { x: self.x - o.x, y: self.y - o.y }
    }
}

/// Both coordinates within `COORD_LIMIT` (positions and velocities).
pub open spec fn in_range(v: Vec2) -> bool {
    -COORD_LIMIT <= v.x <= COORD_LIMIT && -COORD_LIMIT <= v.y <= COORD_LIMIT
}

/// Both coordinates within `2 * COORD_LIMIT` (differences of in-range vectors).
/// Squared norms of such vectors still fit in a `u64`.
pub open spec fn in_wide_range(v: Vec2) -> bool {
    -2 * COORD_LIMIT <= v.x <= 2 * COORD_LIMIT && -2 * COORD_LIMIT <= v.y <= 2 * COORD_LIMIT
}

/// Squared Euclidean norm.
pub open spec fn nsq(v: Vec2) -> int {
    v.x * v.x + v.y * v.y
}

/// Truncating (toward zero) signed division by a positive divisor, the
/// semantics of Rust's `/` on signed integers.
pub open spec fn sdiv(a: int, d: int) -> int {
    if a >= 0 {
        a / d
    } else {
        -((-a) / d)
    }
}

/// Floor of the square root: the unique `r` with `r * r <= n < (r + 1) * (r + 1)`.
pub open spec fn isqrt_spec(n: nat) -> nat
    decreases n,
{
    if n == 0 {
        0
    } else {
        let r = isqrt_spec((n - 1) as nat);
        if (r + 1) * (r + 1) <= n {
            r + 1
        } else {
            r
        }
    }
}

/// The length of `v`, rounded down to a whole milli-unit.
pub open spec fn len_of(v: Vec2) -> nat {
    isqrt_spec(nsq(v) as nat)
}

/// `x` component of `v` normalized to length (at most) `SCALE`.
pub open spec fn unit_x(v: Vec2) -> int {
    sdiv(v.x * SCALE, (len_of(v) + 1) as int)
}

/// `y` component of `v` normalized to length (at most) `SCALE`.
pub open spec fn unit_y(v: Vec2) -> int {
    sdiv(v.y * SCALE, (len_of(v) + 1) as int)
}

/// `isqrt_spec` is what its name promises.
pub proof fn lemma_isqrt_bounds(n: nat)
    ensures
        isqrt_spec(n) * isqrt_spec(n) <= n,
        n < (isqrt_spec(n) + 1) * (isqrt_spec(n) + 1),
    decreases n,
{
    if n == 0 {
        assert(isqrt_spec(n) == 0);
        assert(isqrt_spec(n) * isqrt_spec(n) <= n);
        assert(n < (isqrt_spec(n) + 1) * (isqrt_spec(n) + 1)) by (nonlinear_arith)
            requires
                n == 0,
                isqrt_spec(n) == 0,
        ;
    } else {
        let p = isqrt_spec((n - 1) as nat);
        lemma_isqrt_bounds((n - 1) as nat);
        if (p + 1) * (p + 1) <= n {
            assert(isqrt_spec(n) == p + 1);
            assert(n < (p + 2) * (p + 2)) by (nonlinear_arith)
                requires
                    n <= (p + 1) * (p + 1),
            ;
            assert(isqrt_spec(n) * isqrt_spec(n) <= n);
            assert(n < (isqrt_spec(n) + 1) * (isqrt_spec(n) + 1));
        } else {
            assert(isqrt_spec(n) == p);
            assert(isqrt_spec(n) * isqrt_spec(n) <= n);
            assert(n < (isqrt_spec(n) + 1) * (isqrt_spec(n) + 1));
        }
    }
}

/// A squared norm is never negative.
pub proof fn lemma_nsq_nonneg(v: Vec2)
    ensures
        nsq(v) >= 0,
{
    assert(v.x * v.x + v.y * v.y >= 0) by (nonlinear_arith);
}

/// Any `r` with `r * r <= n < (r + 1) * (r + 1)` is `isqrt_spec(n)`.
pub proof fn lemma_isqrt_unique(n: nat, r: nat)
    requires
        r * r <= n,
        n < (r + 1) * (r + 1),
    ensures
        r == isqrt_spec(n),
{
    let s = isqrt_spec(n);
    lemma_isqrt_bounds(n);
    if r < s {
        assert(false) by (nonlinear_arith)
            requires
                r < s,
                n < (r + 1) * (r + 1),
                s * s <= n,
            ;
    }
    if s < r {
        assert(false) by (nonlinear_arith)
            requires
                s < r,
                n < (s + 1) * (s + 1),
                r * r <= n,
            ;
    }
}

/// Floor of the square root, by binary search.
pub fn isqrt(n: u64) -> (r: u64)
    ensures
        r == isqrt_spec(n as nat),
        r * r <= n,
{
    let mut lo: u64 = 0;
    let mut hi: u64 = if n < 0xFFFF_FFFF {
        n + 1
    } else {
        0x1_0000_0000
    };
    proof {
        if n < 0xFFFF_FFFF {
            assert(n < (n + 1) * (n + 1)) by (nonlinear_arith);
        }
    }
    while lo + 1 < hi
        invariant
            lo < hi <= 0x1_0000_0000,
            lo * lo <= n,
            n < hi * hi,
        decreases hi - lo,
    {
        let mid = lo + (hi - lo) / 2;
        proof {
            assert(mid * mid <= 0xFFFF_FFFF * 0xFFFF_FFFF) by (nonlinear_arith)
                requires
                    0 <= mid <= 0xFFFF_FFFF,
            ;
        }
        if mid * mid <= n {
            lo = mid;
        } else {
            hi = mid;
        }
    }
    proof {
        lemma_isqrt_unique(n as nat, lo as nat);
    }
    lo
}

/// Exact squared norm, as a machine integer.
pub fn norm_sq(v: Vec2) -> (r: u64)
    requires
        in_wide_range(v),
    ensures
        r == nsq(v),
        r <= 8_000_000_000_000_000_000,
{
    let ax: u64 = if v.x >= 0 {
        v.x as u64
    } else {
        (-v.x) as u64
    };
    let ay: u64 = if v.y >= 0 {
        v.y as u64
    } else {
        (-v.y) as u64
    };
    proof {
        assert(ax * ax == v.x * v.x && ax * ax <= 4_000_000_000_000_000_000) by (nonlinear_arith)
            requires
                0 <= ax <= 2_000_000_000,
                ax == v.x || ax == -v.x,
        ;
        assert(ay * ay == v.y * v.y && ay * ay <= 4_000_000_000_000_000_000) by (nonlinear_arith)
            requires
                0 <= ay <= 2_000_000_000,
                ay == v.y || ay == -v.y,
        ;
    }
    ax * ax + ay * ay
}

/// Length of `v` in milli-units, rounded down.
pub fn length(v: Vec2) -> (r: u64)
    requires
        in_wide_range(v),
    ensures
        r == len_of(v),
        r <= 3_000_000_000,
{
    let n = norm_sq(v);
    let r = isqrt(n);
    proof {
        lemma_isqrt_bounds(n as nat);
        assert(r <= 3_000_000_000) by (nonlinear_arith)
            requires
                r * r <= n <= 8_000_000_000_000_000_000,
        ;
    }
    r
}

/// Multiply a nonnegative magnitude and divide, with exact floor semantics.
pub(crate) fn mag_muldiv(a: u64, num: u64, den: u64) -> (r: u64)
    requires
        den >= 1,
        a * num <= u64::MAX,
    ensures
        r == (a * num) / (den as int),
{
    (a * num) / den
}

/// `sdiv(a * num, den)` for a signed component: sign and magnitude handled
/// separately so the result matches Rust's truncating division exactly.
pub(crate) fn comp_muldiv(a: i64, num: i64, den: i64) -> (r: i64)
    requires
        den >= 1,
        0 <= num,
        a != i64::MIN,
        (if a >= 0 { a as int } else { -a as int }) * num <= i64::MAX,
    ensures
        r == sdiv(a * num, den as int),
        (if r >= 0 { r as int } else { -r as int }) == ((if a >= 0 { a as int } else {
            -a as int
        }) * num) / (den as int),
{
    let mag: u64 = if a >= 0 {
        a as u64
    } else {
        (-a) as u64
    };
    proof {
        assert(mag * num <= i64::MAX) by (nonlinear_arith)
            requires
                num >= 0,
                mag == (if a >= 0 { a as int } else { -a as int }),
                (if a >= 0 { a as int } else { -a as int }) * num <= i64::MAX,
        ;
    }
    let q: u64 = mag_muldiv(mag, num as u64, den as u64);
    proof {
        vstd::arithmetic::div_mod::lemma_div_nonincreasing((mag * num) as int, den as int);
        vstd::arithmetic::div_mod::lemma_div_pos_is_pos((mag * num) as int, den as int);
        if a < 0 {
            assert((-a) * num == -(a * num)) by (nonlinear_arith);
        }
    }
    if a >= 0 {
        q as i64
    } else {
        -(q as i64)
    }
}

/// Normalize to length at most `SCALE`; the zero vector stays zero.
///
/// Divides each component by `length(v) + 1`, so the call is total and the
/// squared norm of the result is strictly below `SCALE * SCALE`.
pub fn normalize_or_zero(v: Vec2) -> (r: Vec2)
    requires
        in_wide_range(v),
    ensures
        r.x == unit_x(v),
        r.y == unit_y(v),
        -SCALE <= r.x <= SCALE,
        -SCALE <= r.y <= SCALE,
        nsq(r) <= SCALE * SCALE,
        v.x == 0 && v.y == 0 ==> r.x == 0 && r.y == 0,
{
    let len = length(v);
    let d = (len + 1) as i64;
    let rx = comp_muldiv(v.x, SCALE, d);
    let ry = comp_muldiv(v.y, SCALE, d);
    proof {
        lemma_unit_norm(v);
    }
    Vec2 { x: rx, y: ry }
}

/// A vector built from mathematical integers (identity on all values the
/// library produces, which fit in `i64`).
pub open spec fn svec(x: int, y: int) -> Vec2 {
    Vec2 { x: x as i64, y: y as i64 }
}

/// Componentwise sum, as a spec value.
pub open spec fn plus_of(a: Vec2, b: Vec2) -> Vec2 {
    svec(a.x + b.x, a.y + b.y)
}

/// Componentwise difference, as a spec value.
pub open spec fn diff_of(a: Vec2, b: Vec2) -> Vec2 {
    svec(a.x - b.x, a.y - b.y)
}

/// The normalized direction of `v`, as a spec value.
pub open spec fn unit_of(v: Vec2) -> Vec2 {
    svec(unit_x(v), unit_y(v))
}

/// Componentwise `v * num / den` with truncating division, as a spec value.
pub open spec fn muldiv_of(v: Vec2, num: int, den: int) -> Vec2 {
    svec(sdiv(v.x * num, den), sdiv(v.y * num, den))
}

/// Squared distance between two points.
pub open spec fn dist_sq(a: Vec2, b: Vec2) -> int {
    nsq(diff_of(a, b))
}

/// Componentwise `v * num / den` with truncating division.
pub fn muldiv(v: Vec2, num: i64, den: i64) -> (r: Vec2)
    requires
        den >= 1,
        0 <= num,
        v.x != i64::MIN,
        v.y != i64::MIN,
        (if v.x >= 0 { v.x as int } else { -v.x as int }) * num <= i64::MAX,
        (if v.y >= 0 { v.y as int } else { -v.y as int }) * num <= i64::MAX,
    ensures
        r == muldiv_of(v, num as int, den as int),
        (if r.x >= 0 { r.x as int } else { -r.x as int }) == ((if v.x >= 0 { v.x as int } else {
            -v.x as int
        }) * num) / (den as int),
        (if r.y >= 0 { r.y as int } else { -r.y as int }) == ((if v.y >= 0 { v.y as int } else {
            -v.y as int
        }) * num) / (den as int),
{
    let rx = comp_muldiv(v.x, num, den);
    let ry = comp_muldiv(v.y, num, den);
    proof {
        vstd::arithmetic::div_mod::lemma_div_pos_is_pos(
            (if v.x >= 0 { v.x as int } else { -v.x as int }) * num, den as int);
        vstd::arithmetic::div_mod::lemma_div_pos_is_pos(
            (if v.y >= 0 { v.y as int } else { -v.y as int }) * num, den as int);
    }
    Vec2 { x: rx, y: ry }
}

/// If `0 <= a <= d` then `a * n / d <= n`: scaling by a proper fraction
/// cannot grow a magnitude.
pub proof fn lemma_prop_bound(a: int, n: int, d: int)
    requires
        0 <= a <= d,
        0 <= n,
        1 <= d,
    ensures
        (a * n) / d <= n,
{
    assert(a * n <= d * n) by (nonlinear_arith)
        requires
            0 <= a <= d,
            0 <= n,
    ;
    vstd::arithmetic::div_mod::lemma_div_is_ordered(a * n, d * n, d);
    assert(d * n == n * d) by (nonlinear_arith);
    vstd::arithmetic::div_mod::lemma_div_by_multiple(n, d);
}

/// If `0 <= a <= n * c` then `a / n <= c`: a mean of values bounded by `c`
/// is bounded by `c`.
pub proof fn lemma_mean_bound(a: int, n: int, c: int)
    requires
        0 <= a <= n * c,
        1 <= n,
        0 <= c,
    ensures
        a / n <= c,
{
    vstd::arithmetic::div_mod::lemma_div_is_ordered(a, n * c, n);
    assert(n * c == c * n) by (nonlinear_arith);
    vstd::arithmetic::div_mod::lemma_div_by_multiple(c, n);
}

/// Key inequality behind every scaling step: if `p * d <= a * n` and
/// `q * d <= b * n` for nonnegative magnitudes, the scaled squared norm is
/// bounded by the original one times `(n / d)^2`.
proof fn lemma_scaled_norm_core(p: int, q: int, a: int, b: int, n: int, d: int)
    by (nonlinear_arith)
    requires
        0 <= p,
        0 <= q,
        0 <= a,
        0 <= b,
        0 <= n,
        0 < d,
        p * d <= a * n,
        q * d <= b * n,
    ensures
        (p * p + q * q) * (d * d) <= (a * a + b * b) * (n * n),
{
}

/// The normalized vector has squared norm at most `SCALE * SCALE`, and
/// each component is bounded by `SCALE`.
pub proof fn lemma_unit_norm(v: Vec2)
    requires
        in_wide_range(v),
    ensures
        -SCALE <= unit_x(v) <= SCALE,
        -SCALE <= unit_y(v) <= SCALE,
        unit_x(v) * unit_x(v) + unit_y(v) * unit_y(v) <= SCALE * SCALE,
        nsq(unit_of(v)) <= SCALE * SCALE,
        unit_of(v).x == unit_x(v) && unit_of(v).y == unit_y(v),
{
    let a = if v.x >= 0 { v.x as int } else { -v.x as int };
    let b = if v.y >= 0 { v.y as int } else { -v.y as int };
    lemma_nsq_nonneg(v);
    let nn = nsq(v) as nat;
    let d = len_of(v) + 1;
    lemma_isqrt_bounds(nn);
    let p = (a * SCALE) / d as int;
    let q = (b * SCALE) / d as int;
    vstd::arithmetic::div_mod::lemma_div_pos_is_pos(a * SCALE, d as int);
    vstd::arithmetic::div_mod::lemma_div_pos_is_pos(b * SCALE, d as int);
    vstd::arithmetic::div_mod::lemma_fundamental_div_mod(a * SCALE, d as int);
    vstd::arithmetic::div_mod::lemma_mod_bound(a * SCALE, d as int);
    vstd::arithmetic::div_mod::lemma_fundamental_div_mod(b * SCALE, d as int);
    vstd::arithmetic::div_mod::lemma_mod_bound(b * SCALE, d as int);
    assert(p * d <= a * SCALE && q * d <= b * SCALE) by (nonlinear_arith)
        requires
            d >= 1,
            p == (a * SCALE) / d as int,
            q == (b * SCALE) / d as int,
            d * p + (a * SCALE) % d as int == a * SCALE,
            d * q + (b * SCALE) % d as int == b * SCALE,
            (a * SCALE) % d as int >= 0,
            (b * SCALE) % d as int >= 0,
    ;
    lemma_scaled_norm_core(p, q, a, b, SCALE as int, d as int);
    assert(a * a + b * b == nn) by (nonlinear_arith)
        requires
            a == (if v.x >= 0 { v.x as int } else { -v.x as int }),
            b == (if v.y >= 0 { v.y as int } else { -v.y as int }),
            nn == v.x * v.x + v.y * v.y,
    ;
    assert(p * p + q * q <= SCALE * SCALE) by (nonlinear_arith)
        requires
            (p * p + q * q) * (d * d) <= (a * a + b * b) * (SCALE * SCALE),
            a * a + b * b < d * d,
            0 <= p * p + q * q,
            0 < d,
            SCALE == 1000,
    ;
    assert(unit_x(v) == if v.x >= 0 { p } else { -p }) by {
        if v.x < 0 {
            assert((-(v.x * SCALE)) == a * SCALE) by (nonlinear_arith)
                requires
                    a == -v.x as int,
            ;
        }
    }
    assert(unit_y(v) == if v.y >= 0 { q } else { -q }) by {
        if v.y < 0 {
            assert((-(v.y * SCALE)) == b * SCALE) by (nonlinear_arith)
                requires
                    b == -v.y as int,
            ;
        }
    }
    assert(p <= SCALE && q <= SCALE) by (nonlinear_arith)
        requires
            p * p + q * q <= SCALE * SCALE,
            0 <= p,
            0 <= q,
            SCALE == 1000,
    ;
    assert(unit_x(v) * unit_x(v) == p * p) by (nonlinear_arith)
        requires
            unit_x(v) == p || unit_x(v) == -p,
    ;
    assert(unit_y(v) * unit_y(v) == q * q) by (nonlinear_arith)
        requires
            unit_y(v) == q || unit_y(v) == -q,
    ;
    assert(unit_of(v).x == unit_x(v) && unit_of(v).y == unit_y(v));
}

/// Squares preserve order on nonnegative integers, in both directions.
pub proof fn lemma_sq_order(a: int, b: int)
    by (nonlinear_arith)
    requires
        0 <= a,
        0 <= b,
    ensures
        a <= b ==> a * a <= b * b,
        a * a <= b * b ==> a <= b,
{
}

/// Scaling a direction of norm at most `SCALE` by `s / SCALE` yields a
/// vector of norm at most `s`, with components bounded by `s`.
pub proof fn lemma_muldiv_norm(u: Vec2, s: int)
    requires
        nsq(u) <= SCALE * SCALE,
        -SCALE <= u.x <= SCALE,
        -SCALE <= u.y <= SCALE,
        0 <= s <= COORD_LIMIT,
    ensures
        nsq(muldiv_of(u, s, SCALE as int)) <= s * s,
        -s <= muldiv_of(u, s, SCALE as int).x <= s,
        -s <= muldiv_of(u, s, SCALE as int).y <= s,
{
    let a = if u.x >= 0 { u.x as int } else { -u.x as int };
    let b = if u.y >= 0 { u.y as int } else { -u.y as int };
    let p = (a * s) / (SCALE as int);
    let q = (b * s) / (SCALE as int);
    vstd::arithmetic::div_mod::lemma_div_pos_is_pos(a * s, SCALE as int);
    vstd::arithmetic::div_mod::lemma_div_pos_is_pos(b * s, SCALE as int);
    vstd::arithmetic::div_mod::lemma_fundamental_div_mod(a * s, SCALE as int);
    vstd::arithmetic::div_mod::lemma_mod_bound(a * s, SCALE as int);
    vstd::arithmetic::div_mod::lemma_fundamental_div_mod(b * s, SCALE as int);
    vstd::arithmetic::div_mod::lemma_mod_bound(b * s, SCALE as int);
    assert(p * SCALE <= a * s && q * SCALE <= b * s) by (nonlinear_arith)
        requires
            SCALE == 1000,
            p == (a * s) / (SCALE as int),
            q == (b * s) / (SCALE as int),
            SCALE * p + (a * s) % (SCALE as int) == a * s,
            SCALE * q + (b * s) % (SCALE as int) == b * s,
            (a * s) % (SCALE as int) >= 0,
            (b * s) % (SCALE as int) >= 0,
    ;
    lemma_scaled_norm_core(p, q, a, b, s, SCALE as int);
    assert(a * a + b * b == nsq(u)) by (nonlinear_arith)
        requires
            a == (if u.x >= 0 { u.x as int } else { -u.x as int }),
            b == (if u.y >= 0 { u.y as int } else { -u.y as int }),
            nsq(u) == u.x * u.x + u.y * u.y,
    ;
    assert((a * a + b * b) * (s * s) <= (SCALE * SCALE) * (s * s)) by (nonlinear_arith)
        requires
            a * a + b * b <= SCALE * SCALE,
            0 <= s,
    ;
    assert(p * p + q * q <= s * s) by (nonlinear_arith)
        requires
            (p * p + q * q) * ((SCALE as int) * (SCALE as int)) <= (SCALE * SCALE) * (s * s),
            SCALE == 1000,
            0 <= p * p + q * q,
    ;
    lemma_prop_bound(a, s, SCALE as int);
    lemma_prop_bound(b, s, SCALE as int);
    assert(p <= s && q <= s) by (nonlinear_arith)
        requires
            p * p + q * q <= s * s,
            0 <= p,
            0 <= q,
            0 <= s,
    ;
    if u.x >= 0 {
        assert(u.x * s >= 0) by (nonlinear_arith)
            requires
                u.x >= 0,
                s >= 0,
        ;
        assert(sdiv(u.x * s, SCALE as int) == p);
    } else {
        assert(-(u.x * s) == a * s && u.x * s < 0 || u.x * s == 0 && a * s == 0)
            by (nonlinear_arith)
            requires
                a == -u.x as int,
                u.x < 0,
                s >= 0,
        ;
        assert(sdiv(u.x * s, SCALE as int) == -p);
    }
    if u.y >= 0 {
        assert(u.y * s >= 0) by (nonlinear_arith)
            requires
                u.y >= 0,
                s >= 0,
        ;
        assert(sdiv(u.y * s, SCALE as int) == q);
    } else {
        assert(-(u.y * s) == b * s && u.y * s < 0 || u.y * s == 0 && b * s == 0)
            by (nonlinear_arith)
            requires
                b == -u.y as int,
                u.y < 0,
                s >= 0,
        ;
        assert(sdiv(u.y * s, SCALE as int) == -q);
    }
    let w = muldiv_of(u, s, SCALE as int);
    assert(w.x == p || w.x == -p);
    assert(w.y == q || w.y == -q);
    assert(w.x * w.x == p * p) by (nonlinear_arith)
        requires
            w.x == p || w.x == -p,
    ;
    assert(w.y * w.y == q * q) by (nonlinear_arith)
        requires
            w.y == q || w.y == -q,
    ;
}

} // verus!
