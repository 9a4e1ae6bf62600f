//! Fixed-point scalars.
//!
//! Every quantity of the engine (a coordinate, a mass, a speed, an angle) is a
//! [`Scalar`]: a signed count of millionths.  A scalar never leaves the range
//! `-LIMIT ..= LIMIT`; a result that would is pinned to the nearer end.
//! Quotients round down.  Dividing by zero gives zero.
//!
//! Cosines and sines are computed to a millionth of a millionth: the smaller
//! of the two from the first terms of the series of the sine, the other as
//! the square root that makes the sum of their squares one.  So a turn
//! changes lengths by two parts in a million millions at most.
//!
//! The integer functions at the top of this module are the arithmetic that the
//! contracts of the whole crate are written in.

use vstd::prelude::*;
use vstd::arithmetic::div_mod::lemma_fundamental_div_mod;
use vstd::arithmetic::div_mod::lemma_fundamental_div_mod_converse;
use vstd::arithmetic::div_mod::lemma_mod_bound;

verus! {

/// Raw units in one whole unit.
pub const SCALE: i64 = 1_000_000;

/// Largest magnitude of a raw value.
pub const LIMIT: i64 = 1_000_000_000_000;

/// Widest value that the wide helpers of this module accept.
pub const WIDE: i128 = 0x4000_0000_0000_0000_0000_0000_0000_0000;

/// Raw value of a quarter turn, as an angle.  Angles are measured in units of
/// which this many make a quarter turn: radians, to within two parts in ten
/// million.
pub const QUARTER_TURN: i64 = 1_570_796;

/// Raw value of a whole turn: four quarter turns.
pub const FULL_TURN: i64 = 6_283_184;

/// Fine units in one: cosines and sines are counted in millionths of millionths.
pub const TURN_SCALE: i64 = 1_000_000_000_000;

/// A quarter turn in fine radians.
pub const FINE_QUARTER: i64 = 1_570_796_326_795;

/// An eighth of a turn in fine radians.
pub const FINE_EIGHTH: i64 = 785_398_163_397;

/// `v` pinned to the range of a scalar.
pub open spec fn sat(v: int) -> int {
    if v > LIMIT {
        LIMIT as int
    } else if v < -LIMIT {
        -(LIMIT as int)
    } else {
        v
    }
}

/// Quotient rounded down; zero for a zero divisor.
pub open spec fn quot(a: int, b: int) -> int {
    if b > 0 {
        a / b
    } else if b < 0 {
        (-a) / (-b)
    } else {
        0
    }
}

/// Raw sum of two raw values.
pub open spec fn raw_add(a: int, b: int) -> int {
    sat(a + b)
}

/// Raw difference of two raw values.
pub open spec fn raw_sub(a: int, b: int) -> int {
    sat(a - b)
}

/// Raw product of two raw values.
pub open spec fn raw_mul(a: int, b: int) -> int {
    sat(quot(a * b, SCALE as int))
}

/// Raw quotient of two raw values.
pub open spec fn raw_div(a: int, b: int) -> int {
    sat(quot(a * SCALE, b))
}

/// Whether `r` is the square root of `n`, rounded down.
pub open spec fn is_floor_sqrt(n: int, r: int) -> bool {
    r >= 0 && r * r <= n && n < (r + 1) * (r + 1)
}

/// Square root of `n` rounded down; zero for a negative `n`.
pub open spec fn isqrt(n: int) -> int {
    if n <= 0 {
        0
    } else {
        choose|r: int| is_floor_sqrt(n, r)
    }
}

/// Raw square root of a raw value.
pub open spec fn raw_sqrt(a: int) -> int {
    isqrt(a * SCALE)
}

/// Quotient rounded to the nearest whole number, halves up, for a positive
/// divisor.
pub open spec fn round_quot(n: int, d: int) -> int {
    (2 * n + d) / (2 * d)
}

/// One step of a series: one minus the `k`-th part of `t` times `u`, in fine
/// units, each quotient rounded down.
pub open spec fn series_step(t: int, u: int, k: int) -> int {
    TURN_SCALE - (t * u / (TURN_SCALE as int)) / k
}

/// Fine sine of a fine angle between zero and an eighth of a turn: the series
/// `r - r^3/3! + r^5/5! - ...` up to the power fifteen, summed from the last
/// term to the first.
pub open spec fn sin_series(r: int) -> int {
    let t = r * r / (TURN_SCALE as int);
    let u7 = series_step(t, TURN_SCALE as int, 210);
    let u6 = series_step(t, u7, 156);
    let u5 = series_step(t, u6, 110);
    let u4 = series_step(t, u5, 72);
    let u3 = series_step(t, u4, 42);
    let u2 = series_step(t, u3, 20);
    let u1 = series_step(t, u2, 6);
    r * u1 / (TURN_SCALE as int)
}

/// The fine cosine that belongs to the fine sine `s`, and the fine sine that
/// belongs to the fine cosine `s`: the square root of one minus the square of
/// `s`, rounded down.
pub open spec fn partner(s: int) -> int {
    isqrt(TURN_SCALE * TURN_SCALE - s * s)
}

/// The fine angle of a raw angle within the first quarter turn.
pub open spec fn fine_angle(r: int) -> int {
    r * FINE_QUARTER / (QUARTER_TURN as int)
}

/// Fine cosine and sine of a raw angle in the first quarter turn.  Up to an
/// eighth of a turn the sine comes from the series; past it the cosine does,
/// as the sine of what is left to the quarter turn.
pub open spec fn first_quarter(r: int) -> (int, int) {
    let f = fine_angle(r);
    if f <= FINE_EIGHTH {
        (partner(sin_series(f)), sin_series(f))
    } else {
        (sin_series(FINE_QUARTER - f), partner(sin_series(FINE_QUARTER - f)))
    }
}

/// Fine cosine and sine of a raw angle.  The magnitude of the angle is
/// reduced by whole turns; the quarter it falls in turns the first-quarter
/// values; the sine takes the sign of the angle.
pub open spec fn turn(a: int) -> (int, int) {
    let m = (if a < 0 { -a } else { a }) % (FULL_TURN as int);
    let q = m / (QUARTER_TURN as int);
    let (c, s) = first_quarter(m % (QUARTER_TURN as int));
    let (c1, s1) = if q == 0 {
        (c, s)
    } else if q == 1 {
        (-s, c)
    } else if q == 2 {
        (-c, -s)
    } else {
        (s, -c)
    };
    if a < 0 {
        (c1, -s1)
    } else {
        (c1, s1)
    }
}

/// Fine cosine of a raw angle.
pub open spec fn turn_cos(a: int) -> int {
    turn(a).0
}

/// Fine sine of a raw angle.
pub open spec fn turn_sin(a: int) -> int {
    turn(a).1
}

/// Raw cosine of a raw angle: the fine cosine, rounded to the nearest raw value.
pub open spec fn raw_cos(a: int) -> int {
    round_quot(turn_cos(a), SCALE as int)
}

/// Raw sine of a raw angle: the fine sine, rounded to the nearest raw value.
pub open spec fn raw_sin(a: int) -> int {
    round_quot(turn_sin(a), SCALE as int)
}

/// A quotient rounded to the nearest whole number is within a half of the
/// quotient.
pub proof fn lemma_round_quot(n: int, d: int)
    requires
        d > 0,
    ensures
        2 * d * round_quot(n, d) <= 2 * n + d < 2 * d * round_quot(n, d) + 2 * d,
{
    lemma_fundamental_div_mod(2 * n + d, 2 * d);
    lemma_mod_bound(2 * n + d, 2 * d);
}

/// A step of a series stays between zero and one.
pub proof fn lemma_series_step(t: int, u: int, k: int)
    requires
        0 <= t <= TURN_SCALE,
        0 <= u <= TURN_SCALE,
        k >= 1,
    ensures
        0 <= series_step(t, u, k) <= TURN_SCALE,
        0 <= t * u <= t * TURN_SCALE,
        t == 0 ==> series_step(t, u, k) == TURN_SCALE,
{
    assert(0 <= t * u <= t * 1_000_000_000_000) by (nonlinear_arith)
        requires
            0 <= t,
            0 <= u <= 1_000_000_000_000,
    ;
    let p = t * u / 1_000_000_000_000;
    assert(0 <= p <= t);
    assert(0 <= p / k <= p) by (nonlinear_arith)
        requires
            0 <= p,
            k >= 1,
    ;
    if t == 0 {
        assert(t * u == 0) by (nonlinear_arith)
            requires
                t == 0,
        ;
        assert(0int / k == 0) by (nonlinear_arith)
            requires
                k >= 1,
        ;
    }
}

/// On an eighth of a turn the series of the sine stays between zero and the
/// angle.
pub proof fn lemma_series_range(r: int)
    requires
        0 <= r <= FINE_EIGHTH,
    ensures
        0 <= sin_series(r) <= r,
{
    let t = r * r / (TURN_SCALE as int);
    assert(0 <= r * r <= 785_398_163_397 * 785_398_163_397) by (nonlinear_arith)
        requires
            0 <= r <= 785_398_163_397,
    ;
    assert(0 <= t <= 616_850_275_067);
    lemma_series_step(t, TURN_SCALE as int, 210);
    let u7 = series_step(t, TURN_SCALE as int, 210);
    lemma_series_step(t, u7, 156);
    let u6 = series_step(t, u7, 156);
    lemma_series_step(t, u6, 110);
    let u5 = series_step(t, u6, 110);
    lemma_series_step(t, u5, 72);
    let u4 = series_step(t, u5, 72);
    lemma_series_step(t, u4, 42);
    let u3 = series_step(t, u4, 42);
    lemma_series_step(t, u3, 20);
    let u2 = series_step(t, u3, 20);
    lemma_series_step(t, u2, 6);
    let u1 = series_step(t, u2, 6);
    assert(0 <= r * u1 <= r * 1_000_000_000_000) by (nonlinear_arith)
        requires
            0 <= r,
            0 <= u1 <= 1_000_000_000_000,
    ;
}

/// The partner of a fine sine between zero and one is between zero and one,
/// and the squares of the two sum to one, or to less than one by no more than
/// two fine units.  The partner of zero is one.
pub proof fn lemma_partner(s: int)
    requires
        0 <= s <= TURN_SCALE,
    ensures
        0 <= partner(s) <= TURN_SCALE,
        -2 * TURN_SCALE <= partner(s) * partner(s) + s * s - TURN_SCALE * TURN_SCALE <= 0,
        s == 0 ==> partner(s) == TURN_SCALE,
{
    let t = 1_000_000_000_000int;
    assert(TURN_SCALE * TURN_SCALE == t * t) by (nonlinear_arith)
        requires
            TURN_SCALE == 1_000_000_000_000,
            t == 1_000_000_000_000,
    ;
    assert(0 <= s * s <= t * t) by (nonlinear_arith)
        requires
            0 <= s <= t,
    ;
    let n = t * t - s * s;
    lemma_isqrt(n);
    let c = isqrt(n);
    if c > t {
        assert(c * c > t * t) by (nonlinear_arith)
            requires
                c > t,
                t > 0,
        ;
    }
    assert((c + 1) * (c + 1) == c * c + 2 * c + 1) by (nonlinear_arith);
    if s == 0 {
        assert(s * s == 0) by (nonlinear_arith)
            requires
                s == 0,
        ;
        lemma_isqrt_square(t);
    }
}

/// The fine angle of a raw angle within a quarter turn is within a quarter turn.
pub proof fn lemma_fine_angle(r: int)
    requires
        0 <= r < QUARTER_TURN,
    ensures
        0 <= fine_angle(r) < FINE_QUARTER,
        r == 0 ==> fine_angle(r) == 0,
{
    assert(0 <= r * FINE_QUARTER <= 1_570_795 * 1_570_796_326_795) by (nonlinear_arith)
        requires
            0 <= r <= 1_570_795,
    ;
    if r == 0 {
        assert(r * FINE_QUARTER == 0) by (nonlinear_arith)
            requires
                r == 0,
        ;
    }
}

/// Fine cosine and sine stay between minus one and one, and their squares
/// sum to one, or to less than one by no more than two fine units.  At zero
/// they are one and zero.
pub proof fn lemma_turn_range(a: int)
    ensures
        -TURN_SCALE <= turn_cos(a) <= TURN_SCALE,
        -TURN_SCALE <= turn_sin(a) <= TURN_SCALE,
        -2 * TURN_SCALE <= turn_cos(a) * turn_cos(a) + turn_sin(a) * turn_sin(a) - TURN_SCALE
            * TURN_SCALE <= 0,
        a == 0 ==> turn_cos(a) == TURN_SCALE && turn_sin(a) == 0,
{
    let m = (if a < 0 { -a } else { a }) % (FULL_TURN as int);
    let r = m % (QUARTER_TURN as int);
    lemma_fine_angle(r);
    let f = fine_angle(r);
    let s = if f <= FINE_EIGHTH {
        sin_series(f)
    } else {
        sin_series(FINE_QUARTER - f)
    };
    if f <= FINE_EIGHTH {
        lemma_series_range(f);
    } else {
        lemma_series_range(FINE_QUARTER - f);
    }
    lemma_partner(s);
    let p = partner(s);
    assert((-s) * (-s) == s * s) by (nonlinear_arith);
    assert((-p) * (-p) == p * p) by (nonlinear_arith);
    assert(p * p + s * s == s * s + p * p);
    if a == 0 {
        assert(m == 0);
        assert(m / (QUARTER_TURN as int) == 0);
        assert(r == 0);
        assert(f == 0);
        assert(f * f == 0) by (nonlinear_arith)
            requires
                f == 0,
        ;
        assert(sin_series(0) == 0) by {
            lemma_series_range(0);
        }
        assert(first_quarter(r) == (TURN_SCALE as int, 0int));
    }
}

/// Turning the other way keeps the fine cosine and negates the fine sine.
pub proof fn lemma_turn_negated(a: int)
    ensures
        turn_cos(-a) == turn_cos(a),
        turn_sin(-a) == -turn_sin(a),
{
    if a == 0 {
        lemma_turn_range(0);
    }
}

/// At most one number is the rounded-down square root of `n`.
pub proof fn lemma_floor_sqrt_unique(n: int, r1: int, r2: int)
    requires
        is_floor_sqrt(n, r1),
        is_floor_sqrt(n, r2),
    ensures
        r1 == r2,
{
    if r1 < r2 {
        assert((r1 + 1) * (r1 + 1) <= r2 * r2) by (nonlinear_arith)
            requires
                0 <= r1,
                r1 + 1 <= r2,
        ;
    } else if r2 < r1 {
        assert((r2 + 1) * (r2 + 1) <= r1 * r1) by (nonlinear_arith)
            requires
                0 <= r2,
                r2 + 1 <= r1,
        ;
    }
}

/// Every number from zero on has a rounded-down square root, and `isqrt` is it.
pub proof fn lemma_isqrt(n: int)
    requires
        n >= 0,
    ensures
        is_floor_sqrt(n, isqrt(n)),
    decreases n,
{
    if n == 0 {
        assert(is_floor_sqrt(0, 0));
    } else {
        lemma_isqrt(n - 1);
        let r = isqrt(n - 1);
        assert(is_floor_sqrt(n - 1, r));
        if n < (r + 1) * (r + 1) {
            assert(is_floor_sqrt(n, r));
        } else {
            assert((r + 2) * (r + 2) > (r + 1) * (r + 1)) by (nonlinear_arith)
                requires
                    r >= 0,
            ;
            assert(is_floor_sqrt(n, r + 1));
        }
    }
}

/// A number with `r * r <= n < (r + 1) * (r + 1)` is `isqrt(n)`.
pub proof fn lemma_isqrt_is(n: int, r: int)
    requires
        is_floor_sqrt(n, r),
    ensures
        isqrt(n) == r,
{
    assert(r * r >= 0) by (nonlinear_arith);
    if n == 0 {
        if r > 0 {
            assert(r * r > 0) by (nonlinear_arith)
                requires
                    r > 0,
            ;
        }
    } else {
        lemma_isqrt(n);
        lemma_floor_sqrt_unique(n, r, isqrt(n));
    }
}

/// The square root of a square is its root.
pub proof fn lemma_isqrt_square(r: int)
    requires
        r >= 0,
    ensures
        isqrt(r * r) == r,
{
    assert(r * r < (r + 1) * (r + 1)) by (nonlinear_arith)
        requires
            r >= 0,
    ;
    lemma_isqrt_is(r * r, r);
}

/// The rounded-down square root is below `r` exactly when the number is below `r * r`.
pub proof fn lemma_isqrt_below(n: int, r: int)
    requires
        n >= 0,
        r >= 0,
    ensures
        isqrt(n) < r <==> n < r * r,
{
    lemma_isqrt(n);
    let s = isqrt(n);
    if s < r {
        assert((s + 1) * (s + 1) <= r * r) by (nonlinear_arith)
            requires
                0 <= s,
                s + 1 <= r,
        ;
    } else {
        assert(r * r <= s * s) by (nonlinear_arith)
            requires
                0 <= r,
                r <= s,
        ;
    }
}

/// A product is no larger than the product of bounds on its factors.
pub proof fn lemma_product_bound(a: int, b: int, la: int, lb: int)
    requires
        -la <= a <= la,
        -lb <= b <= lb,
    ensures
        -(la * lb) <= a * b <= la * lb,
{
    assert(-(la * lb) <= a * b <= la * lb) by (nonlinear_arith)
        requires
            -la <= a <= la,
            -lb <= b <= lb,
    ;
}

/// The product of two machine integers.
pub fn wide_mul(a: i64, b: i64) -> (p: i128)
    ensures
        p == a * b,
        -WIDE <= p <= WIDE,
{
    proof {
        lemma_product_bound(a as int, b as int, 0x8000_0000_0000_0000, 0x8000_0000_0000_0000);
    }
    (a as i128) * (b as i128)
}

/// Quotient rounded down, for a positive divisor.
fn floor_div(a: i128, b: i128) -> (q: i128)
    requires
        b > 0,
        -WIDE <= a <= WIDE,
    ensures
        q == a / b,
        a >= 0 ==> 0 <= q <= a,
        a < 0 ==> a <= q < 0,
{
    if a >= 0 {
        let q: i128 = a / b;
        proof {
            lemma_fundamental_div_mod(a as int, b as int);
            lemma_mod_bound(a as int, b as int);
            assert(0 <= q <= a) by (nonlinear_arith)
                requires
                    a == b * q + (a % b) as int,
                    0 <= (a % b) as int,
                    ((a % b) as int) < b,
                    b > 0,
                    a >= 0,
            ;
        }
        q
    } else {
        let n: i128 = -a;
        let t: i128 = n / b;
        let r: i128 = n % b;
        assert(n == t * b + r && 0 <= r < b) by {
            lemma_fundamental_div_mod(n as int, b as int);
            lemma_mod_bound(n as int, b as int);
            assert(b * t == t * b) by (nonlinear_arith);
        }
        assert(0 <= t <= n) by (nonlinear_arith)
            requires
                n == t * b + r,
                0 <= r < b,
                b > 0,
                n >= 0,
        ;
        if r == 0 {
            proof {
                assert(a == (-t) * b + 0) by (nonlinear_arith)
                    requires
                        n == t * b + r,
                        r == 0,
                        a == -n,
                ;
                lemma_fundamental_div_mod_converse(a as int, b as int, -t as int, 0);
                assert(t > 0) by (nonlinear_arith)
                    requires
                        n == t * b + r,
                        r == 0,
                        n > 0,
                        b > 0,
                ;
            }
            -t
        } else {
            proof {
                assert(a == (-t - 1) * b + (b - r)) by (nonlinear_arith)
                    requires
                        n == t * b + r,
                        a == -n,
                ;
                lemma_fundamental_div_mod_converse(
                    a as int,
                    b as int,
                    (-t - 1) as int,
                    (b - r) as int,
                );
                assert(t + 1 <= n) by (nonlinear_arith)
                    requires
                        n == t * b + r,
                        0 < r < b,
                        t >= 0,
                ;
            }
            -t - 1
        }
    }
}

/// Quotient rounded down; zero for a zero divisor.
pub fn wide_quot(a: i128, b: i128) -> (q: i128)
    requires
        -WIDE <= a <= WIDE,
        -WIDE <= b <= WIDE,
    ensures
        q == quot(a as int, b as int),
        -WIDE <= q <= WIDE,
{
    if b > 0 {
        floor_div(a, b)
    } else if b < 0 {
        floor_div(-a, -b)
    } else {
        0
    }
}

/// Square root rounded down; zero for a negative number.
pub fn wide_sqrt(n: i128) -> (r: i128)
    requires
        n <= 0x1_0000_0000_0000_0000_0000_0000,
    ensures
        r == isqrt(n as int),
        0 <= r <= 0x1_0000_0000_0000,
{
    if n <= 0 {
        return 0;
    }
    let mut lo: i128 = 0;
    let mut hi: i128 = 0x1_0000_0000_0001;
    assert(0x1_0000_0000_0001int * 0x1_0000_0000_0001int > 0x1_0000_0000_0000_0000_0000_0000int)
        by (nonlinear_arith);
    while hi - lo > 1
        invariant
            0 <= lo < hi <= 0x1_0000_0000_0001,
            lo * lo <= n,
            n < hi * hi,
        decreases hi - lo,
    {
        let mid: i128 = lo + (hi - lo) / 2;
        proof {
            lemma_product_bound(mid as int, mid as int, 0x1_0000_0000_0001, 0x1_0000_0000_0001);
            assert(0x1_0000_0000_0001int * 0x1_0000_0000_0001int < 0x10_0000_0000_0000_0000_0000_0000int)
                by (nonlinear_arith);
        }
        if mid * mid <= n {
            lo = mid;
        } else {
            hi = mid;
        }
    }
    proof {
        assert(hi == lo + 1);
        lemma_isqrt_is(n as int, lo as int);
    }
    lo
}

/// One step of a series.
fn step_of_series(t: i128, u: i128, k: i128) -> (v: i128)
    requires
        0 <= t <= TURN_SCALE,
        0 <= u <= TURN_SCALE,
        k >= 1,
    ensures
        v == series_step(t as int, u as int, k as int),
        0 <= v <= TURN_SCALE,
{
    proof {
        lemma_series_step(t as int, u as int, k as int);
    }
    1_000_000_000_000 - (t * u / 1_000_000_000_000) / k
}

/// The square of a fine angle, in fine units.
fn fine_square(r: i128) -> (t: i128)
    requires
        0 <= r <= FINE_EIGHTH,
    ensures
        t == r * r / (TURN_SCALE as int),
        0 <= t <= 616_850_275_067,
{
    proof {
        assert(0 <= r * r <= 785_398_163_397 * 785_398_163_397) by (nonlinear_arith)
            requires
                0 <= r <= 785_398_163_397,
        ;
    }
    r * r / 1_000_000_000_000
}

/// The sine series, on fine values.
fn sin_series_fine(r: i128) -> (v: i128)
    requires
        0 <= r <= FINE_EIGHTH,
    ensures
        v == sin_series(r as int),
        0 <= v <= TURN_SCALE,
{
    proof {
        lemma_series_range(r as int);
    }
    let t: i128 = fine_square(r);
    let u7: i128 = step_of_series(t, 1_000_000_000_000, 210);
    let u6: i128 = step_of_series(t, u7, 156);
    let u5: i128 = step_of_series(t, u6, 110);
    let u4: i128 = step_of_series(t, u5, 72);
    let u3: i128 = step_of_series(t, u4, 42);
    let u2: i128 = step_of_series(t, u3, 20);
    let u1: i128 = step_of_series(t, u2, 6);
    proof {
        assert(0 <= r * u1 <= 785_398_163_397 * 1_000_000_000_000) by (nonlinear_arith)
            requires
                0 <= r <= 785_398_163_397,
                0 <= u1 <= 1_000_000_000_000,
        ;
    }
    r * u1 / 1_000_000_000_000
}

/// The partner of a fine sine or cosine.
fn partner_fine(s: i128) -> (c: i128)
    requires
        0 <= s <= TURN_SCALE,
    ensures
        c == partner(s as int),
        0 <= c <= TURN_SCALE,
{
    proof {
        lemma_partner(s as int);
        assert(0 <= s * s <= 1_000_000_000_000 * 1_000_000_000_000) by (nonlinear_arith)
            requires
                0 <= s <= 1_000_000_000_000,
        ;
        assert(TURN_SCALE * TURN_SCALE == 1_000_000_000_000_000_000_000_000) by (nonlinear_arith)
            requires
                TURN_SCALE == 1_000_000_000_000,
        ;
    }
    wide_sqrt(1_000_000_000_000_000_000_000_000 - s * s)
}

/// Quotient rounded to the nearest whole number, halves up, for a positive
/// divisor.
pub fn wide_round(n: i128, d: i128) -> (q: i128)
    requires
        -0x1000_0000_0000_0000_0000_0000_0000_0000 <= n <= 0x1000_0000_0000_0000_0000_0000_0000_0000,
        0 < d <= 0x1000_0000_0000_0000_0000_0000_0000_0000,
    ensures
        q == round_quot(n as int, d as int),
        -WIDE <= q <= WIDE,
{
    wide_quot(2 * n + d, 2 * d)
}

/// A fixed-point number: a whole count of millionths, kept within `LIMIT`.
#[derive(Clone, Copy, Debug, PartialEq, Eq)]
pub struct Scalar {
    raw: i64,
}

impl View for Scalar {
    type V = int;

    /// The raw value: the number times `SCALE`.
    closed spec fn view(&self) -> int {
        self.raw as int
    }
}

impl Scalar {
    #[verifier::type_invariant]
    spec fn in_range(self) -> bool {
        -LIMIT <= self.raw <= LIMIT
    }

    /// The scalar with the given raw value, pinned to the range.
    pub fn from_raw(raw: i64) -> (s: Scalar)
        ensures
            s@ == sat(raw as int),
    {
        Scalar::from_wide(raw as i128)
    }

    /// The scalar with the given raw value, pinned to the range.
    pub fn from_wide(v: i128) -> (s: Scalar)
        ensures
            s@ == sat(v as int),
    {
        if v > LIMIT as i128 {
            Scalar { raw: LIMIT }
        } else if v < -(LIMIT as i128) {
            Scalar { raw: -LIMIT }
        } else {
            Scalar { raw: v as i64 }
        }
    }

    /// The whole number `n`.
    pub fn from_int(n: i64) -> (s: Scalar)
        ensures
            s@ == sat(n * SCALE),
    {
        Scalar::from_wide(wide_mul(n, SCALE))
    }

    /// The fraction `num / den`, rounded down to a millionth; zero if `den` is zero.
    pub fn from_ratio(num: i64, den: i64) -> (s: Scalar)
        ensures
            s@ == sat(quot(num * SCALE, den as int)),
    {
        Scalar::from_wide(wide_quot(wide_mul(num, SCALE), den as i128))
    }

    /// Zero.
    pub fn zero() -> (s: Scalar)
        ensures
            s@ == 0,
    {
        Scalar { raw: 0 }
    }

    /// One.
    pub fn one() -> (s: Scalar)
        ensures
            s@ == SCALE,
    {
        Scalar { raw: SCALE }
    }

    /// The raw value.
    pub fn raw(&self) -> (r: i64)
        ensures
            r == self@,
            -LIMIT <= r <= LIMIT,
    {
        proof {
            use_type_invariant(self);
        }
        self.raw
    }

    /// The exact product of two raw values.
    pub fn raw_product(&self, other: &Scalar) -> (p: i128)
        ensures
            p == self@ * other@,
            -1_000_000_000_000_000_000_000_000 <= p <= 1_000_000_000_000_000_000_000_000,
    {
        proof {
            use_type_invariant(self);
            use_type_invariant(other);
            lemma_product_bound(self@, other@, LIMIT as int, LIMIT as int);
        }
        (self.raw as i128) * (other.raw as i128)
    }

    /// Sum.
    pub fn add(&self, other: &Scalar) -> (s: Scalar)
        ensures
            s@ == raw_add(self@, other@),
    {
        Scalar::from_wide(self.raw() as i128 + other.raw() as i128)
    }

    /// Difference.
    pub fn sub(&self, other: &Scalar) -> (s: Scalar)
        ensures
            s@ == raw_sub(self@, other@),
    {
        Scalar::from_wide(self.raw() as i128 - other.raw() as i128)
    }

    /// Negation.
    pub fn neg(&self) -> (s: Scalar)
        ensures
            s@ == -self@,
    {
        Scalar::from_wide(-(self.raw() as i128))
    }

    /// Magnitude.
    pub fn abs(&self) -> (s: Scalar)
        ensures
            s@ == if self@ < 0 { -self@ } else { self@ },
    {
        if self.raw() < 0 {
            self.neg()
        } else {
            *self
        }
    }

    /// Product.
    pub fn mul(&self, other: &Scalar) -> (s: Scalar)
        ensures
            s@ == raw_mul(self@, other@),
    {
        let p: i128 = wide_mul(self.raw(), other.raw());
        Scalar::from_wide(wide_quot(p, SCALE as i128))
    }

    /// Quotient; zero if `other` is zero.
    pub fn div(&self, other: &Scalar) -> (s: Scalar)
        ensures
            s@ == raw_div(self@, other@),
    {
        let p: i128 = wide_mul(self.raw(), SCALE);
        Scalar::from_wide(wide_quot(p, other.raw() as i128))
    }

    /// Square root, rounded down; zero for a negative number.
    pub fn sqrt(&self) -> (s: Scalar)
        ensures
            s@ == sat(raw_sqrt(self@)),
    {
        let p: i128 = wide_mul(self.raw(), SCALE);
        Scalar::from_wide(wide_sqrt(p))
    }

    /// Fine cosine and sine of an angle: in units of which `TURN_SCALE` make one.
    pub fn turn(&self) -> (cs: (i64, i64))
        ensures
            cs.0 == turn_cos(self@),
            cs.1 == turn_sin(self@),
            -TURN_SCALE <= cs.0 <= TURN_SCALE,
            -TURN_SCALE <= cs.1 <= TURN_SCALE,
    {
        let a: i64 = self.raw();
        let n: i64 = if a < 0 {
            -a
        } else {
            a
        };
        let m: i64 = n % FULL_TURN;
        let q: i64 = m / QUARTER_TURN;
        let r: i64 = m % QUARTER_TURN;
        proof {
            lemma_fine_angle(r as int);
        }
        let f: i128 = (r as i128) * (FINE_QUARTER as i128) / (QUARTER_TURN as i128);
        let c: i64;
        let s: i64;
        if f <= FINE_EIGHTH as i128 {
            let sine: i128 = sin_series_fine(f);
            c = partner_fine(sine) as i64;
            s = sine as i64;
        } else {
            let cosine: i128 = sin_series_fine(FINE_QUARTER as i128 - f);
            c = cosine as i64;
            s = partner_fine(cosine) as i64;
        }
        let c1: i64;
        let s1: i64;
        if q == 0 {
            c1 = c;
            s1 = s;
        } else if q == 1 {
            c1 = -s;
            s1 = c;
        } else if q == 2 {
            c1 = -c;
            s1 = -s;
        } else {
            c1 = s;
            s1 = -c;
        }
        let s2: i64 = if a < 0 {
            -s1
        } else {
            s1
        };
        (c1, s2)
    }

    /// Cosine and sine of an angle.
    pub fn cos_sin(&self) -> (cs: (Scalar, Scalar))
        ensures
            cs.0@ == raw_cos(self@),
            cs.1@ == raw_sin(self@),
            -SCALE <= cs.0@ <= SCALE,
            -SCALE <= cs.1@ <= SCALE,
    {
        let fine: (i64, i64) = self.turn();
        proof {
            lemma_round_quot(fine.0 as int, SCALE as int);
            lemma_round_quot(fine.1 as int, SCALE as int);
        }
        (
            Scalar::from_wide(wide_round(fine.0 as i128, SCALE as i128)),
            Scalar::from_wide(wide_round(fine.1 as i128, SCALE as i128)),
        )
    }

    /// Whether `self` is less than `other`.
    pub fn lt(&self, other: &Scalar) -> (b: bool)
        ensures
            b == (self@ < other@),
    {
        self.raw() < other.raw()
    }

    /// Whether `self` is zero.
    pub fn is_zero(&self) -> (b: bool)
        ensures
            b == (self@ == 0),
    {
        self.raw() == 0
    }
}

} // verus!
