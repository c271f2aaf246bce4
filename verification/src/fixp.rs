//! Milli fixed-point arithmetic: scaling, rounding, integer square root and
//! the small-angle trigonometry used to jitter bullet directions.

use vstd::prelude::*;

verus! {

/// One unit (of space, of seconds, of probability) counted in milli-steps.
pub const MILLI: u64 = 1000;

/// Division rounded toward zero, the rounding every milli-scaled
/// product in the simulation uses.
pub open spec fn div_trunc(n: int, d: int) -> int
    recommends
        d > 0,
{
    if n >= 0 {
        n / d
    } else {
        -((-n) / d)
    }
}

/// Division by 1000 rounded toward zero.
pub open spec fn div_milli(n: int) -> int {
    div_trunc(n, 1000)
}

/// Division by 1000 rounded up, used for whole-point damage out of
/// milli-scaled damage values.
pub open spec fn ceil_milli(n: int) -> int
    recommends
        n >= 0,
{
    (n + 999) / 1000
}

/// Truncating milli division on machine integers.
pub fn milli_div(n: i64) -> (r: i64)
    requires
        i64::MIN < n,
    ensures
        r == div_milli(n as int),
{
    if n >= 0 {
        n / 1000
    } else {
        -((-n) / 1000)
    }
}

/// Rounded-up milli division: the damage a single hit deducts from health
/// out of a milli-scaled damage value.
pub fn milli_ceil(n: u64) -> (r: u64)
    requires
        n <= u64::MAX - 999,
    ensures
        r == ceil_milli(n as int),
        1000 * r >= n,
        n > 0 ==> 1000 * (r - 1) < n,
{
    (n + 999) / 1000
}

/// Truncating division on machine integers.
pub fn trunc_div(n: i64, d: i64) -> (r: i64)
    requires
        i64::MIN < n,
        0 < d,
    ensures
        r == div_trunc(n as int, d as int),
{
    if n >= 0 {
        n / d
    } else {
        -((-n) / d)
    }
}

/// A truncating quotient of something at most `m * k` in magnitude, by `m`,
/// is at most `k` in magnitude.
pub proof fn lemma_div_trunc_bound(a: int, m: int, k: int)
    requires
        1 <= m,
        0 <= k,
        -(m * k) <= a <= m * k,
    ensures
        -k <= div_trunc(a, m) <= k,
{
    if a >= 0 {
        vstd::arithmetic::div_mod::lemma_div_pos_is_pos(a, m);
        vstd::arithmetic::div_mod::lemma_div_is_ordered(a, m * k, m);
        vstd::arithmetic::div_mod::lemma_div_multiples_vanish(k, m);
    } else {
        vstd::arithmetic::div_mod::lemma_div_pos_is_pos(-a, m);
        vstd::arithmetic::div_mod::lemma_div_is_ordered(-a, m * k, m);
        vstd::arithmetic::div_mod::lemma_div_multiples_vanish(k, m);
    }
}

/// What it means for `r` to be the integer square root of `n`.
pub open spec fn is_isqrt(n: int, r: int) -> bool {
    0 <= r && r * r <= n && n < (r + 1) * (r + 1)
}

/// The integer square root, as a specification-level function.
pub open spec fn isqrt_spec(n: int) -> int
    recommends
        n >= 0,
{
    choose|r: int| is_isqrt(n, r)
}

/// Every nonnegative integer has an integer square root, so `isqrt_spec`
/// always denotes the root.
pub proof fn lemma_isqrt_exists(n: int)
    requires
        n >= 0,
    ensures
        is_isqrt(n, isqrt_spec(n)),
    decreases n,
{
    if n == 0 {
        assert(is_isqrt(0, 0));
    } else {
        lemma_isqrt_exists(n - 1);
        let r = isqrt_spec(n - 1);
        if n < (r + 1) * (r + 1) {
            assert(is_isqrt(n, r));
        } else {
            assert((r + 1) * (r + 1) <= n);
            assert(n < (r + 2) * (r + 2)) by (nonlinear_arith)
                requires
                    is_isqrt(n - 1, r),
                    (r + 1) * (r + 1) <= n,
            ;
            assert(is_isqrt(n, r + 1));
        }
    }
}

/// The integer square root is unique.
pub proof fn lemma_isqrt_unique(n: int, a: int, b: int)
    requires
        is_isqrt(n, a),
        is_isqrt(n, b),
    ensures
        a == b,
{
    assert(a == b) by (nonlinear_arith)
        requires
            is_isqrt(n, a),
            is_isqrt(n, b),
    ;
}

/// Integer square root: the unique `r` with `r * r <= n < (r + 1) * (r + 1)`.
pub fn isqrt(n: u64) -> (r: u64)
    ensures
        r * r <= n,
        n < (r + 1) * (r + 1),
        r == isqrt_spec(n as int),
{
    let mut lo: u64 = 0;
    let mut hi: u64 = 4294967296;
    while lo + 1 < hi
        invariant
            lo < hi <= 4294967296,
            lo * lo <= n,
            n < hi * hi,
        decreases hi - lo,
    {
        let mid: u64 = lo + (hi - lo) / 2;
        assert(mid < 4294967296);
        assert(mid * mid <= 0xffffffff00000000u64) by (nonlinear_arith)
            requires
                mid < 4294967296,
        ;
        if mid * mid <= n {
            lo = mid;
        } else {
            hi = mid;
        }
    }
    proof {
        lemma_isqrt_exists(n as int);
        lemma_isqrt_unique(n as int, lo as int, isqrt_spec(n as int));
    }
    lo
}

/// A quarter turn and a half turn in milli-radians.
pub const QUARTER_TURN_MILLI: i64 = 1571;

pub const HALF_TURN_MILLI: i64 = 3142;

/// Taylor polynomial for the sine of `a / 1000` radians, scaled by 1000,
/// on the first quarter turn (`0 <= a <= 1571`).
pub open spec fn sin_quarter_spec(a: int) -> int {
    let a2 = a * a;
    let a3 = a2 * a;
    let a5 = a3 * a2;
    a - a3 / 6000000 + a5 / 120000000000000 - ((a5 / 1000000) * a2) / 5040000000000000
}

/// Taylor polynomial for the cosine of `a / 1000` radians, scaled by 1000,
/// on the first quarter turn (`0 <= a <= 1571`).
pub open spec fn cos_quarter_spec(a: int) -> int {
    let a2 = a * a;
    let a4 = a2 * a2;
    1000 - a2 / 2000 + a4 / 24000000000 - ((a4 / 1000000) * a2) / 720000000000
}

/// Sine of `t / 1000` radians scaled by 1000, for `|t|` up to a half turn:
/// odd symmetry and the supplement rule reduce to the first quarter turn.
pub open spec fn sin_milli_spec(t: int) -> int {
    let a = if t >= 0 { t } else { -t };
    let s = if a > 1571 {
        sin_quarter_spec(3142 - a)
    } else {
        sin_quarter_spec(a)
    };
    if t >= 0 {
        s
    } else {
        -s
    }
}

/// Cosine of `t / 1000` radians scaled by 1000, for `|t|` up to a half turn.
pub open spec fn cos_milli_spec(t: int) -> int {
    let a = if t >= 0 { t } else { -t };
    if a > 1571 {
        -cos_quarter_spec(3142 - a)
    } else {
        cos_quarter_spec(a)
    }
}

fn sin_quarter(a: i64) -> (r: i64)
    requires
        0 <= a <= 1571,
    ensures
        r == sin_quarter_spec(a as int),
        -2000 <= r <= 2000,
{
    assert(0 <= a * a <= 2468041) by (nonlinear_arith)
        requires
            0 <= a <= 1571,
    ;
    let a2: i64 = a * a;
    assert(0 <= a2 * a <= 3877292411) by (nonlinear_arith)
        requires
            0 <= a <= 1571,
            0 <= a2 <= 2468041,
    ;
    let a3: i64 = a2 * a;
    assert(0 <= a3 * a2 <= 3877292411 * 2468041) by (nonlinear_arith)
        requires
            0 <= a2 <= 2468041,
            0 <= a3 <= 3877292411,
    ;
    let a5: i64 = a3 * a2;
    let a5d: i64 = a5 / 1000000;
    proof {
        vstd::arithmetic::div_mod::lemma_div_pos_is_pos(a5 as int, 1000000);
        vstd::arithmetic::div_mod::lemma_div_is_ordered(a5 as int, (3877292411 * 2468041) as int, 1000000);
    }
    assert(0 <= a5d <= 9569316640);
    assert(0 <= a5d * a2 <= 9569316640 * 2468041) by (nonlinear_arith)
        requires
            0 <= a2 <= 2468041,
            0 <= a5d <= 9569316640,
    ;
    a - a3 / 6000000 + a5 / 120000000000000 - (a5d * a2) / 5040000000000000
}

fn cos_quarter(a: i64) -> (r: i64)
    requires
        0 <= a <= 1571,
    ensures
        r == cos_quarter_spec(a as int),
        -2000 <= r <= 2000,
{
    assert(0 <= a * a <= 2468041) by (nonlinear_arith)
        requires
            0 <= a <= 1571,
    ;
    let a2: i64 = a * a;
    assert(0 <= a2 * a2 <= 2468041 * 2468041) by (nonlinear_arith)
        requires
            0 <= a2 <= 2468041,
    ;
    let a4: i64 = a2 * a2;
    let a4d: i64 = a4 / 1000000;
    proof {
        vstd::arithmetic::div_mod::lemma_div_pos_is_pos(a4 as int, 1000000);
        vstd::arithmetic::div_mod::lemma_div_is_ordered(a4 as int, (2468041 * 2468041) as int, 1000000);
    }
    assert(0 <= a4d <= 6091227);
    assert(0 <= a4d * a2 <= 6091227 * 2468041) by (nonlinear_arith)
        requires
            0 <= a2 <= 2468041,
            0 <= a4d <= 6091227,
    ;
    1000 - a2 / 2000 + a4 / 24000000000 - (a4d * a2) / 720000000000
}

/// Fixed-point sine on milli-radians, `|t|` at most a half turn.
pub fn sin_milli(t: i64) -> (r: i64)
    requires
        -3142 <= t <= 3142,
    ensures
        r == sin_milli_spec(t as int),
        -2000 <= r <= 2000,
{
    let a: i64 = if t >= 0 {
        t
    } else {
        -t
    };
    let s: i64 = if a > 1571 {
        sin_quarter(3142 - a)
    } else {
        sin_quarter(a)
    };
    if t >= 0 {
        s
    } else {
        -s
    }
}

/// Fixed-point cosine on milli-radians, `|t|` at most a half turn.
pub fn cos_milli(t: i64) -> (r: i64)
    requires
        -3142 <= t <= 3142,
    ensures
        r == cos_milli_spec(t as int),
        -2000 <= r <= 2000,
{
    let a: i64 = if t >= 0 {
        t
    } else {
        -t
    };
    if a > 1571 {
        let c = cos_quarter(3142 - a);
        -c
    } else {
        cos_quarter(a)
    }
}

} // verus!
