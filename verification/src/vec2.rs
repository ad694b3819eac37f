//! 2-D vector arithmetic over fixed-point `i64` coordinates.
//!
//! A caller chooses the physical meaning of one unit; the defaults elsewhere
//! in this crate treat one thousand units as one screen pixel. Normalisation
//! produces direction vectors of (approximate) length `UNIT_LENGTH` instead
//! of mathematical unit vectors, which keeps a usable resolution in integer
//! arithmetic. Scaling a vector to a target length rounds its true length
//! down, so a scaled or clamped vector never exceeds the requested bound.

use vstd::prelude::*;

verus! {

/// Length given to "unit" direction vectors.
pub const UNIT_LENGTH: i64 = 1_000;

/// Largest magnitude admitted for positions, velocities, radii and the speed
/// and force caps. Keeping inputs under this bound lets every intermediate
/// product of the force computations fit in the machine integers.
pub const COORD_LIMIT: i64 = 1_000_000;

/// Largest magnitude admitted for force weights.
pub const WEIGHT_LIMIT: i64 = 1_000;

/// Largest magnitude an acceleration component can reach in one frame: four
/// forces, each clamped to `COORD_LIMIT` and weighted by at most
/// `WEIGHT_LIMIT`.
pub const ACCEL_LIMIT: i64 = 4_000_000_000;

#[derive(Clone, Copy, PartialEq, Eq, Structural, Debug)]
pub struct Vec2 {
    pub x: i64,
    pub y: i64,
}

/// Magnitude of a mathematical integer.
pub open spec fn iabs(c: int) -> int {
    if c >= 0 {
        c
    } else {
        -c
    }
}

/// The vector with the given mathematical components, which are expected to
/// lie within `i64` range wherever this is used.
pub open spec fn v2(x: int, y: int) -> Vec2 {
    Vec2 { x: x as i64, y: y as i64 }
}

pub open spec fn zero_vec() -> Vec2 {
    Vec2 { x: 0, y: 0 }
}

pub open spec fn len_sq(v: Vec2) -> int {
    v.x * v.x + v.y * v.y
}

pub open spec fn dist_sq(a: Vec2, b: Vec2) -> int {
    (a.x - b.x) * (a.x - b.x) + (a.y - b.y) * (a.y - b.y)
}

pub proof fn lemma_len_sq_nonneg(v: Vec2)
    by (nonlinear_arith)
    ensures
        len_sq(v) >= 0,
        dist_sq(v, v) == 0,
{
}

/// Greatest `r` with `r * r <= n`.
pub open spec fn sqrt_floor(n: nat) -> nat
    decreases n,
{
    if n == 0 {
        0
    } else {
        let r = sqrt_floor((n - 1) as nat);
        if (r + 1) * (r + 1) <= n {
            (r + 1) as nat
        } else {
            r
        }
    }
}

pub proof fn lemma_sqrt_floor_bounds(n: nat)
    ensures
        sqrt_floor(n) * sqrt_floor(n) <= n,
        n < (sqrt_floor(n) + 1) * (sqrt_floor(n) + 1),
    decreases n,
{
    if n == 0 {
        assert(sqrt_floor(0) == 0);
        assert((sqrt_floor(n) + 1) * (sqrt_floor(n) + 1) == 1) by (nonlinear_arith)
            requires
                sqrt_floor(n) == 0,
        ;
    } else {
        let m = (n - 1) as nat;
        lemma_sqrt_floor_bounds(m);
        let r = sqrt_floor(m);
        if (r + 1) * (r + 1) <= n {
            assert(sqrt_floor(n) == r + 1);
            assert(n == (r + 1) * (r + 1));
            assert((r + 1) * (r + 1) < (r + 2) * (r + 2)) by (nonlinear_arith)
                requires
                    r >= 0,
            ;
            assert(n < (sqrt_floor(n) + 1) * (sqrt_floor(n) + 1));
        } else {
            assert(sqrt_floor(n) == r);
            assert(r * r <= m);
            assert(n < (r + 1) * (r + 1));
        }
    }
}

pub proof fn lemma_sqrt_floor_unique(n: nat, r: nat)
    requires
        r * r <= n,
        n < (r + 1) * (r + 1),
    ensures
        r == sqrt_floor(n),
{
    lemma_sqrt_floor_bounds(n);
    let s = sqrt_floor(n);
    if r < s {
        assert((r + 1) * (r + 1) <= s * s) by (nonlinear_arith)
            requires
                0 <= r,
                r + 1 <= s,
        ;
    }
    if s < r {
        assert((s + 1) * (s + 1) <= r * r) by (nonlinear_arith)
            requires
                0 <= s,
                s + 1 <= r,
        ;
    }
}

/// Least `r` with `n <= r * r`.
pub open spec fn sqrt_ceil(n: nat) -> nat {
    if sqrt_floor(n) * sqrt_floor(n) == n {
        sqrt_floor(n)
    } else {
        (sqrt_floor(n) + 1) as nat
    }
}

pub proof fn lemma_sqrt_ceil_bounds(n: nat)
    ensures
        n <= sqrt_ceil(n) * sqrt_ceil(n),
        sqrt_ceil(n) == 0 ==> n == 0,
        sqrt_floor(n) <= sqrt_ceil(n),
{
    lemma_sqrt_floor_bounds(n);
}

/// Magnitude of an `i64`, widened so that `i64::MIN` is handled too.
pub fn abs_u64(x: i64) -> (r: u64)
    ensures
        r as int == iabs(x as int),
{
    if x >= 0 {
        x as u64
    } else {
        let w: i128 = x as i128;
        (-w) as u64
    }
}

/// Squared length, computed in 128 bits so that it is total on all of `i64`.
pub fn length_sq(v: Vec2) -> (n: u128)
    ensures
        n as int == len_sq(v),
{
    let xa = abs_u64(v.x);
    let ya = abs_u64(v.y);
    proof {
        assert((xa as int) * (xa as int) == (v.x as int) * (v.x as int)
            && (xa as int) * (xa as int) <= 0x8000_0000_0000_0000 * 0x8000_0000_0000_0000)
            by (nonlinear_arith)
            requires
                xa as int == iabs(v.x as int),
                iabs(v.x as int) <= 0x8000_0000_0000_0000,
        ;
        assert((ya as int) * (ya as int) == (v.y as int) * (v.y as int)
            && (ya as int) * (ya as int) <= 0x8000_0000_0000_0000 * 0x8000_0000_0000_0000)
            by (nonlinear_arith)
            requires
                ya as int == iabs(v.y as int),
                iabs(v.y as int) <= 0x8000_0000_0000_0000,
        ;
    }
    (xa as u128) * (xa as u128) + (ya as u128) * (ya as u128)
}

/// Least `r` with `n <= r * r`, by binary search on the 64-bit candidates.
pub fn sqrt_ceil_u128(n: u128) -> (r: u128)
    ensures
        r as nat == sqrt_ceil(n as nat),
        r <= 0x1_0000_0000_0000_0000,
{
    let mut lo: u128 = 0;
    let mut hi: u128 = 0x1_0000_0000_0000_0000;
    proof {
        assert((n as int) < (hi as int) * (hi as int)) by (nonlinear_arith)
            requires
                n as int <= 0xffff_ffff_ffff_ffff_ffff_ffff_ffff_ffff,
                hi as int == 0x1_0000_0000_0000_0000,
        ;
    }
    while hi - lo > 1
        invariant
            lo < hi,
            hi <= 0x1_0000_0000_0000_0000,
            (lo as int) * (lo as int) <= n as int,
            (n as int) < (hi as int) * (hi as int),
        decreases hi - lo,
    {
        let mid: u128 = lo + (hi - lo) / 2;
        proof {
            assert((mid as int) * (mid as int) <= 0xffff_ffff_ffff_ffff_ffff_ffff_ffff_ffff)
                by (nonlinear_arith)
                requires
                    0 <= mid as int,
                    mid as int <= 0xffff_ffff_ffff_ffff,
            ;
        }
        if mid * mid <= n {
            lo = mid;
        } else {
            hi = mid;
        }
    }
    proof {
        assert((lo as int) * (lo as int) <= 0xffff_ffff_ffff_ffff_ffff_ffff_ffff_ffff)
            by (nonlinear_arith)
            requires
                0 <= lo as int,
                lo as int <= 0xffff_ffff_ffff_ffff,
        ;
        lemma_sqrt_floor_unique(n as nat, lo as nat);
    }
    if lo * lo == n {
        lo
    } else {
        lo + 1
    }
}

/// A vector fit to stand for a position or a velocity.
pub open spec fn vec_bounded(v: Vec2) -> bool {
    iabs(v.x as int) <= COORD_LIMIT && iabs(v.y as int) <= COORD_LIMIT
}

/// A vector fit to stand for one frame's accumulated acceleration.
pub open spec fn accel_bounded(v: Vec2) -> bool {
    iabs(v.x as int) <= ACCEL_LIMIT && iabs(v.y as int) <= ACCEL_LIMIT
}

pub proof fn lemma_div_mag_bound(qa: int, sa: int, c: int, b: int)
    requires
        0 < c,
        0 <= qa,
        qa * c <= sa,
        sa <= c * b,
    ensures
        qa <= b,
{
    assert(c * qa == qa * c) by (nonlinear_arith);
    lemma_mul_cancel_le(qa, b, c);
}

pub proof fn lemma_sq_nonneg(a: int)
    by (nonlinear_arith)
    ensures
        a * a >= 0,
{
}

pub proof fn lemma_sq_abs(a: int, c: int)
    by (nonlinear_arith)
    requires
        a == c || a == -c,
    ensures
        a * a == c * c,
{
}

pub proof fn lemma_abs_le_of_sq_le(a: int, b: int)
    by (nonlinear_arith)
    requires
        0 <= a,
        0 <= b,
        a * a <= b * b,
    ensures
        a <= b,
{
}

pub proof fn lemma_mul_le_mono_left(a: int, b: int, c: int)
    by (nonlinear_arith)
    requires
        0 <= c,
        a <= b,
    ensures
        a * c <= b * c,
{
}

pub proof fn lemma_mul_cancel_le(q: int, b: int, l: int)
    by (nonlinear_arith)
    requires
        0 < l,
        l * q <= l * b,
    ensures
        q <= b,
{
}

/// The core geometric fact behind clamping: if `(qx, qy)` was obtained by
/// scaling the magnitudes `(xa, ya)` of a vector of length at most `l` by
/// `m / l`, rounding down, then `(qx, qy)` has length at most `m`.
proof fn lemma_scaled_len_le(l: int, m: int, xa: int, ya: int, qx: int, qy: int)
    requires
        0 < l,
        0 <= m,
        0 <= xa,
        0 <= ya,
        0 <= qx,
        0 <= qy,
        l * qx <= xa * m,
        l * qy <= ya * m,
        xa * xa + ya * ya <= l * l,
    ensures
        qx * qx + qy * qy <= m * m,
{
    assert((l * qx) * (l * qx) <= (xa * m) * (xa * m) && (l * qy) * (l * qy) <= (ya * m) * (ya
        * m)) by (nonlinear_arith)
        requires
            0 <= l * qx,
            l * qx <= xa * m,
            0 <= l * qy,
            l * qy <= ya * m,
    ;
    assert((l * qx) * (l * qx) == (l * l) * (qx * qx) && (xa * m) * (xa * m) == (xa * xa) * (m
        * m) && (l * qy) * (l * qy) == (l * l) * (qy * qy) && (ya * m) * (ya * m) == (ya * ya) * (m
        * m)) by (nonlinear_arith);
    assert((l * l) * (qx * qx + qy * qy) == (l * l) * (qx * qx) + (l * l) * (qy * qy))
        by (nonlinear_arith);
    assert((xa * xa) * (m * m) + (ya * ya) * (m * m) == (xa * xa + ya * ya) * (m * m))
        by (nonlinear_arith);
    assert((xa * xa + ya * ya) * (m * m) <= (l * l) * (m * m)) by (nonlinear_arith)
        requires
            xa * xa + ya * ya <= l * l,
            0 <= m * m,
    ;
    assert(0 < l * l) by (nonlinear_arith)
        requires
            0 < l,
    ;
    lemma_mul_cancel_le(qx * qx + qy * qy, m * m, l * l);
}

/// Integer scaling of one signed component by `m / l`, rounding the magnitude
/// down ("toward zero").
pub open spec fn scaled_toward(c: int, m: int, l: int) -> int {
    if c >= 0 {
        (c * m) / l
    } else {
        -(((-c) * m) / l)
    }
}

/// X component of `v` rescaled to length (at most) `m`; the zero vector stays
/// zero.
pub open spec fn spec_scale_x(v: Vec2, m: int) -> int {
    let l = sqrt_ceil(len_sq(v) as nat) as int;
    if l == 0 {
        0
    } else {
        scaled_toward(v.x as int, m, l)
    }
}

/// Y component of `v` rescaled to length (at most) `m`.
pub open spec fn spec_scale_y(v: Vec2, m: int) -> int {
    let l = sqrt_ceil(len_sq(v) as nat) as int;
    if l == 0 {
        0
    } else {
        scaled_toward(v.y as int, m, l)
    }
}

/// X component of `v` clamped to length `m`: `v` is rescaled exactly when it
/// is strictly longer than `m`.
pub open spec fn spec_clamp_x(v: Vec2, m: int) -> int {
    if len_sq(v) > m * m {
        spec_scale_x(v, m)
    } else {
        v.x as int
    }
}

/// Y component of `v` clamped to length `m`.
pub open spec fn spec_clamp_y(v: Vec2, m: int) -> int {
    if len_sq(v) > m * m {
        spec_scale_y(v, m)
    } else {
        v.y as int
    }
}

/// Signed division rounding toward zero, the rounding used when a summed
/// steering force is averaged over a neighbour count.
pub open spec fn div_toward_zero(s: int, c: int) -> int {
    if s >= 0 {
        s / c
    } else {
        -((-s) / c)
    }
}

/// Rescale `v` to length at most `m` (exactly `m` up to rounding), preserving
/// its direction; the zero vector is left as zero.
pub fn scale_to(v: Vec2, m: i64) -> (r: Vec2)
    requires
        0 <= m,
    ensures
        r.x as int == spec_scale_x(v, m as int),
        r.y as int == spec_scale_y(v, m as int),
        r == v2(spec_scale_x(v, m as int), spec_scale_y(v, m as int)),
        len_sq(r) <= m * m,
        iabs(r.x as int) <= m,
        iabs(r.y as int) <= m,
        len_sq(v) == 0 ==> r == zero_vec(),
{
    proof {
        lemma_len_sq_nonneg(v);
        lemma_sq_nonneg(m as int);
    }
    let nsq = length_sq(v);
    let l = sqrt_ceil_u128(nsq);
    if l == 0 {
        proof {
            lemma_sqrt_ceil_bounds(nsq as nat);
            assert(v.x * v.x >= 0 && v.y * v.y >= 0 && (v.x * v.x + v.y * v.y == 0 ==> v.x == 0
                && v.y == 0)) by (nonlinear_arith);
        }
        Vec2 { x: 0, y: 0 }
    } else {
        let xa = abs_u64(v.x);
        let ya = abs_u64(v.y);
        proof {
            lemma_sqrt_ceil_bounds(nsq as nat);
            lemma_sq_abs(xa as int, v.x as int);
            lemma_sq_abs(ya as int, v.y as int);
            lemma_sq_nonneg(v.x as int);
            lemma_sq_nonneg(v.y as int);
            // |x| <= l and |y| <= l, so the quotients below stay under m
            lemma_abs_le_of_sq_le(xa as int, l as int);
            lemma_abs_le_of_sq_le(ya as int, l as int);
            assert((xa as int) * (m as int) <= 0x8000_0000_0000_0000 * 0x8000_0000_0000_0000
                && (ya as int) * (m as int) <= 0x8000_0000_0000_0000 * 0x8000_0000_0000_0000)
                by (nonlinear_arith)
                requires
                    0 <= xa as int <= 0x8000_0000_0000_0000,
                    0 <= ya as int <= 0x8000_0000_0000_0000,
                    0 <= m as int <= 0x8000_0000_0000_0000,
            ;
        }
        let qx = ((xa as u128) * (m as u128)) / l;
        let qy = ((ya as u128) * (m as u128)) / l;
        proof {
            let li = l as int;
            let mi = m as int;
            vstd::arithmetic::div_mod::lemma_fundamental_div_mod((xa as int) * mi, li);
            vstd::arithmetic::div_mod::lemma_fundamental_div_mod((ya as int) * mi, li);
            lemma_mul_le_mono_left(xa as int, li, mi);
            lemma_mul_le_mono_left(ya as int, li, mi);
            assert(li * (qx as int) <= (xa as int) * mi);
            assert(li * (qy as int) <= (ya as int) * mi);
            assert(li * mi == mi * li) by (nonlinear_arith);
            lemma_mul_cancel_le(qx as int, mi, li);
            lemma_mul_cancel_le(qy as int, mi, li);
            lemma_scaled_len_le(li, mi, xa as int, ya as int, qx as int, qy as int);
        }
        let rx: i64 = if v.x >= 0 {
            qx as i64
        } else {
            -(qx as i64)
        };
        let ry: i64 = if v.y >= 0 {
            qy as i64
        } else {
            -(qy as i64)
        };
        proof {
            lemma_sq_abs(rx as int, qx as int);
            lemma_sq_abs(ry as int, qy as int);
        }
        Vec2 { x: rx, y: ry }
    }
}

/// `v` unchanged if its length is at most `m`, otherwise rescaled to `m`.
pub fn clamp_len(v: Vec2, m: i64) -> (r: Vec2)
    requires
        0 <= m,
    ensures
        r.x as int == spec_clamp_x(v, m as int),
        r.y as int == spec_clamp_y(v, m as int),
        r == v2(spec_clamp_x(v, m as int), spec_clamp_y(v, m as int)),
        len_sq(r) <= m * m,
        iabs(r.x as int) <= m,
        iabs(r.y as int) <= m,
{
    let nsq = length_sq(v);
    proof {
        assert((m as int) * (m as int) <= 0x8000_0000_0000_0000 * 0x8000_0000_0000_0000)
            by (nonlinear_arith)
            requires
                0 <= m as int <= 0x8000_0000_0000_0000,
        ;
    }
    let msq = (m as u128) * (m as u128);
    if nsq > msq {
        scale_to(v, m)
    } else {
        proof {
            lemma_sq_abs(iabs(v.x as int), v.x as int);
            lemma_sq_abs(iabs(v.y as int), v.y as int);
            lemma_sq_nonneg(v.x as int);
            lemma_sq_nonneg(v.y as int);
            lemma_abs_le_of_sq_le(iabs(v.x as int), m as int);
            lemma_abs_le_of_sq_le(iabs(v.y as int), m as int);
        }
        v
    }
}

/// Signed division of each accumulated component by the neighbour count,
/// rounding toward zero.
pub fn div_comp(s: i64, c: i64) -> (q: i64)
    requires
        c > 0,
        s != i64::MIN,
    ensures
        q as int == div_toward_zero(s as int, c as int),
        iabs(q as int) * c <= iabs(s as int),
        iabs(q as int) <= iabs(s as int),
{
    let sa = abs_u64(s);
    let q = sa / (c as u64);
    proof {
        vstd::arithmetic::div_mod::lemma_fundamental_div_mod(sa as int, c as int);
        assert((c as int) * (q as int) <= sa as int);
        assert((q as int) <= (c as int) * (q as int)) by (nonlinear_arith)
            requires
                1 <= c as int,
                0 <= q as int,
        ;
        assert((q as int) * (c as int) == (c as int) * (q as int)) by (nonlinear_arith);
    }
    let qi = q as i64;
    if s >= 0 {
        qi
    } else {
        -qi
    }
}

/// Multiply a clamped force by its weight. The bounds keep the product, and
/// a sum of four such products, inside `i64`.
pub fn scale_weight(v: Vec2, w: i64) -> (r: Vec2)
    requires
        iabs(v.x as int) <= COORD_LIMIT,
        iabs(v.y as int) <= COORD_LIMIT,
        iabs(w as int) <= WEIGHT_LIMIT,
    ensures
        r == v2(v.x * w, v.y * w),
        r.x as int == v.x * w,
        r.y as int == v.y * w,
        iabs(r.x as int) <= COORD_LIMIT * WEIGHT_LIMIT,
        iabs(r.y as int) <= COORD_LIMIT * WEIGHT_LIMIT,
{
    proof {
        assert(-1_000_000_000 <= (v.x as int) * (w as int) <= 1_000_000_000 && -1_000_000_000 <= (
        v.y as int) * (w as int) <= 1_000_000_000) by (nonlinear_arith)
            requires
                -1_000_000 <= v.x as int <= 1_000_000,
                -1_000_000 <= v.y as int <= 1_000_000,
                -1_000 <= w as int <= 1_000,
        ;
    }
    Vec2 { x: v.x * w, y: v.y * w }
}

impl Vec2 {
    /// Componentwise sum.
    pub fn plus(self, other: Vec2) -> (r: Vec2)
        requires
            i64::MIN <= self.x + other.x <= i64::MAX,
            i64::MIN <= self.y + other.y <= i64::MAX,
        ensures
            r == v2(self.x + other.x, self.y + other.y),
            r.x as int == self.x + other.x,
            r.y as int == self.y + other.y,
    {
        Vec2 { x: self.x + other.x, y: self.y + other.y }
    }

    /// Componentwise difference.
    pub fn minus(self, other: Vec2) -> (r: Vec2)
        requires
            i64::MIN <= self.x - other.x <= i64::MAX,
            i64::MIN <= self.y - other.y <= i64::MAX,
        ensures
            r == v2(self.x - other.x, self.y - other.y),
            r.x as int == self.x - other.x,
            r.y as int == self.y - other.y,
    {
        Vec2 { x: self.x - other.x, y: self.y - other.y }
    }
}

} // verus!
