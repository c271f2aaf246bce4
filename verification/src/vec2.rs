//! Two-dimensional fixed-point vectors: positions, velocities and facing
//! directions, all in milli-units.

use vstd::prelude::*;
use crate::fixp::{
    div_milli, div_trunc, is_isqrt, isqrt, isqrt_spec, lemma_isqrt_exists, trunc_div, cos_milli,
    cos_milli_spec, sin_milli, sin_milli_spec,
};

verus! {

/// Largest coordinate the world admits (a million units, milli-scaled).
pub const COORD_LIMIT: i64 = 1000000000;

/// Largest speed the world admits, in milli-units per second.
pub const SPEED_LIMIT: i64 = 100000000;

/// Largest component of a facing direction (directions are roughly
/// milli-unit vectors; rotation may overshoot a little).
pub const DIR_LIMIT: i64 = 10000000;

/// Largest component of a well-formed facing direction: facings are
/// norm-scaled to a thousand milli-units, and one rotation of such a
/// vector stays well within twice that.
pub const UNIT_DIR_LIMIT: i64 = 2000;

/// A planar vector with milli-unit components.
#[derive(Clone, Copy, PartialEq, Eq, Structural, Debug)]
pub struct Vec2m {
    pub x: i64,
    pub y: i64,
}

impl Vec2m {
    /// Both components within `b` of zero.
    pub open spec fn bounded(self, b: int) -> bool {
        -b <= self.x <= b && -b <= self.y <= b
    }

    pub open spec fn is_zero(self) -> bool {
        self.x == 0 && self.y == 0
    }

    pub fn zero() -> (r: Vec2m)
        ensures
            r == (Vec2m { x: 0, y: 0 }),
    {
        Vec2m { x: 0, y: 0 }
    }

    pub fn new(x: i64, y: i64) -> (r: Vec2m)
        ensures
            r == (Vec2m { x, y }),
    {
        Vec2m { x, y }
    }

    pub fn add(self, o: Vec2m) -> (r: Vec2m)
        requires
            i64::MIN <= self.x + o.x <= i64::MAX,
            i64::MIN <= self.y + o.y <= i64::MAX,
        ensures
            r == (Vec2m { x: (self.x + o.x) as i64, y: (self.y + o.y) as i64 }),
    {
        Vec2m { x: self.x + o.x, y: self.y + o.y }
    }

    pub fn sub(self, o: Vec2m) -> (r: Vec2m)
        requires
            i64::MIN <= self.x - o.x <= i64::MAX,
            i64::MIN <= self.y - o.y <= i64::MAX,
        ensures
            r == (Vec2m { x: (self.x - o.x) as i64, y: (self.y - o.y) as i64 }),
    {
        Vec2m { x: self.x - o.x, y: self.y - o.y }
    }
}

/// Squared distance between two bounded points, exactly.
pub open spec fn dist_sq_spec(a: Vec2m, b: Vec2m) -> int {
    (a.x - b.x) * (a.x - b.x) + (a.y - b.y) * (a.y - b.y)
}

/// Squared length of a vector.
pub open spec fn len_sq_spec(v: Vec2m) -> int {
    v.x * v.x + v.y * v.y
}

pub fn dist_sq(a: Vec2m, b: Vec2m) -> (r: u64)
    requires
        a.bounded(COORD_LIMIT as int),
        b.bounded(COORD_LIMIT as int),
    ensures
        r == dist_sq_spec(a, b),
{
    let dx: i64 = a.x - b.x;
    let dy: i64 = a.y - b.y;
    assert(0 <= dx * dx <= 4000000000000000000 && 0 <= dy * dy <= 4000000000000000000)
        by (nonlinear_arith)
        requires
            -2000000000 <= dx <= 2000000000,
            -2000000000 <= dy <= 2000000000,
    ;
    (dx * dx + dy * dy) as u64
}

pub fn len_sq(v: Vec2m) -> (r: u64)
    requires
        v.bounded(2 * COORD_LIMIT as int),
    ensures
        r == len_sq_spec(v),
{
    assert(0 <= v.x * v.x <= 4000000000000000000 && 0 <= v.y * v.y <= 4000000000000000000)
        by (nonlinear_arith)
        requires
            -2000000000 <= v.x <= 2000000000,
            -2000000000 <= v.y <= 2000000000,
    ;
    (v.x * v.x + v.y * v.y) as u64
}

/// The vector of magnitude `k` pointing along `d` (zero when `d` is zero):
/// each component is `d * k` divided, rounding toward zero, by `|d|`.
pub open spec fn norm_scale_spec(d: Vec2m, k: int) -> Vec2m {
    if d.is_zero() {
        Vec2m { x: 0, y: 0 }
    } else {
        let m = isqrt_spec(len_sq_spec(d));
        Vec2m {
            x: div_trunc(d.x * k, m) as i64,
            y: div_trunc(d.y * k, m) as i64,
        }
    }
}

/// Scale the direction of `d` to magnitude `k`, in integer arithmetic.
pub fn norm_scale(d: Vec2m, k: i64) -> (r: Vec2m)
    requires
        d.bounded(2 * COORD_LIMIT as int),
        0 <= k <= SPEED_LIMIT,
    ensures
        r == norm_scale_spec(d, k as int),
        d.is_zero() ==> r.is_zero(),
        -k <= r.x <= k && -k <= r.y <= k,
{
    if d.x == 0 && d.y == 0 {
        Vec2m { x: 0, y: 0 }
    } else {
        let n: u64 = len_sq(d);
        let m: u64 = isqrt(n);
        assert(m >= 1) by {
            assert(n >= 1) by (nonlinear_arith)
                requires
                    n == len_sq_spec(d),
                    !d.is_zero(),
            ;
        }
        assert(m <= 3000000000) by {
            assert(len_sq_spec(d) < 3000000001 * 3000000001) by (nonlinear_arith)
                requires
                    d.bounded(2 * COORD_LIMIT as int),
            ;
            assert(m * m <= n);
            assert(!(m > 3000000000)) by (nonlinear_arith)
                requires
                    m * m <= n,
                    n < 3000000001 * 3000000001,
            ;
        }
        assert(-200000000000000000 <= d.x * k <= 200000000000000000
            && -200000000000000000 <= d.y * k <= 200000000000000000) by (nonlinear_arith)
            requires
                -2000000000 <= d.x <= 2000000000,
                -2000000000 <= d.y <= 2000000000,
                0 <= k <= 100000000,
        ;
        assert(-(d.x) <= m && d.x <= m && -(d.y) <= m && d.y <= m) by (nonlinear_arith)
            requires
                m * m <= n,
                n < (m + 1) * (m + 1),
                n == len_sq_spec(d),
        ;
        assert(-((m as int) * k) <= d.x * k <= (m as int) * k && -((m as int) * k) <= d.y * k
            <= (m as int) * k) by (nonlinear_arith)
            requires
                -(d.x) <= m && d.x <= m && -(d.y) <= m && d.y <= m,
                0 <= k,
        ;
        proof {
            crate::fixp::lemma_div_trunc_bound(d.x * k, m as int, k as int);
            crate::fixp::lemma_div_trunc_bound(d.y * k, m as int, k as int);
        }
        let rx: i64 = trunc_div(d.x * k, m as i64);
        let ry: i64 = trunc_div(d.y * k, m as i64);
        Vec2m { x: rx, y: ry }
    }
}

/// `v` rotated by `t` milli-radians, in milli fixed point.
pub open spec fn rotate_spec(v: Vec2m, t: int) -> Vec2m {
    let c = cos_milli_spec(t);
    let s = sin_milli_spec(t);
    Vec2m {
        x: div_milli(v.x * c - v.y * s) as i64,
        y: div_milli(v.x * s + v.y * c) as i64,
    }
}

/// Rotate a direction vector by `t` milli-radians.
pub fn rotate(v: Vec2m, t: i64) -> (r: Vec2m)
    requires
        v.bounded(DIR_LIMIT as int),
        -3142 <= t <= 3142,
    ensures
        r == rotate_spec(v, t as int),
        v.bounded(UNIT_DIR_LIMIT as int) ==> r.bounded(8000),
{
    let c: i64 = cos_milli(t);
    let s: i64 = sin_milli(t);
    proof {
        if v.bounded(UNIT_DIR_LIMIT as int) {
            assert(-8000000 <= v.x * c - v.y * s <= 8000000 && -8000000 <= v.x * s + v.y * c
                <= 8000000) by (nonlinear_arith)
                requires
                    -2000 <= v.x <= 2000,
                    -2000 <= v.y <= 2000,
                    -2000 <= c <= 2000,
                    -2000 <= s <= 2000,
            ;
            crate::fixp::lemma_div_trunc_bound(v.x * c - v.y * s, 1000, 8000);
            crate::fixp::lemma_div_trunc_bound(v.x * s + v.y * c, 1000, 8000);
        }
    }
    assert(-20000000000 <= v.x * c <= 20000000000 && -20000000000 <= v.y * s <= 20000000000
        && -20000000000 <= v.x * s <= 20000000000 && -20000000000 <= v.y * c <= 20000000000)
        by (nonlinear_arith)
        requires
            -10000000 <= v.x <= 10000000,
            -10000000 <= v.y <= 10000000,
            -2000 <= c <= 2000,
            -2000 <= s <= 2000,
    ;
    let rx: i64 = crate::fixp::milli_div(v.x * c - v.y * s);
    let ry: i64 = crate::fixp::milli_div(v.x * s + v.y * c);
    Vec2m { x: rx, y: ry }
}

} // verus!
