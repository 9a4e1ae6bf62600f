//! Turning points about a pivot, and how far rounding lets a turn stray.
//!
//! A turn with cosine `c` and sine `s` takes the offset `(x, y)` of a point
//! from the pivot to `(x c - y s, x s + y c)`, each component rounded to the
//! nearest raw value.  Were nothing rounded, squared lengths would change by
//! the factor `c^2 + s^2`, which [`crate::scalar`] keeps within two parts in a
//! million millions of one.  So a turn keeps distances to within twenty raw
//! units, and a turn there and back returns every point to within three.

use vstd::prelude::*;
use crate::model::BodyView;
use crate::model::ShapeView;
use crate::scalar::isqrt;
use crate::scalar::lemma_isqrt;
use crate::scalar::lemma_round_quot;
use crate::scalar::lemma_turn_negated;
use crate::scalar::lemma_turn_range;
use crate::scalar::round_quot;
use crate::scalar::turn_cos;
use crate::scalar::turn_sin;
use crate::scalar::LIMIT;
use crate::scalar::TURN_SCALE;
use crate::vec2d::Vector;

verus! {

/// The offset `d` turned by the turn with fine cosine `c` and fine sine `s`,
/// each component rounded to the nearest raw value, and not pinned to any range.
pub open spec fn turn_offset(d: Vector, c: int, s: int) -> Vector {
    Vector {
        x: round_quot(d.x * c - d.y * s, TURN_SCALE as int),
        y: round_quot(d.x * s + d.y * c, TURN_SCALE as int),
    }
}

/// By how much the squared length of the turn `(c, s)` differs from one, in
/// squared fine units.
pub open spec fn defect(c: int, s: int) -> int {
    c * c + s * s - TURN_SCALE * TURN_SCALE
}

/// The sum of the magnitudes of the components.
pub open spec fn taxicab(d: Vector) -> int {
    (if d.x < 0 {
        -d.x
    } else {
        d.x
    }) + (if d.y < 0 {
        -d.y
    } else {
        d.y
    })
}

/// The point `p` is in range, and so close to the pivot, itself in range,
/// that no turn about the pivot takes it out of the range of a scalar.
pub open spec fn can_turn(p: Vector, pivot: Vector) -> bool {
    &&& p.in_range()
    &&& pivot.in_range()
    &&& taxicab(Vector { x: p.x - pivot.x, y: p.y - pivot.y }) + taxicab(pivot) <= LIMIT
}

/// The point `p` can turn about the pivot, and can turn again wherever a
/// turn has taken it.
pub open spec fn can_turn_twice(p: Vector, pivot: Vector) -> bool {
    &&& p.in_range()
    &&& pivot.in_range()
    &&& 2 * taxicab(Vector { x: p.x - pivot.x, y: p.y - pivot.y }) + taxicab(pivot) <= LIMIT
}

/// Before rounding, a turn multiplies the squared length of an offset by the
/// squared length of the turn.
pub proof fn lemma_turn_scales_length(x: int, y: int, c: int, s: int)
    ensures
        (x * c - y * s) * (x * c - y * s) + (x * s + y * c) * (x * s + y * c) == (c * c + s * s)
            * (x * x + y * y),
{
    let a = x * c;
    let b = y * s;
    let e = x * s;
    let f = y * c;
    assert((a - b) * (a - b) == a * a - 2 * (a * b) + b * b) by (nonlinear_arith);
    assert((e + f) * (e + f) == e * e + 2 * (e * f) + f * f) by (nonlinear_arith);
    assert(a * b == e * f) by (nonlinear_arith)
        requires
            a == x * c,
            b == y * s,
            e == x * s,
            f == y * c,
    ;
    assert(a * a == (x * x) * (c * c)) by (nonlinear_arith)
        requires
            a == x * c,
    ;
    assert(b * b == (y * y) * (s * s)) by (nonlinear_arith)
        requires
            b == y * s,
    ;
    assert(e * e == (x * x) * (s * s)) by (nonlinear_arith)
        requires
            e == x * s,
    ;
    assert(f * f == (y * y) * (c * c)) by (nonlinear_arith)
        requires
            f == y * c,
    ;
    let xx = x * x;
    let yy = y * y;
    let cc = c * c;
    let ss = s * s;
    assert((cc + ss) * (xx + yy) == xx * cc + yy * ss + xx * ss + yy * cc) by (nonlinear_arith);
}

/// Before rounding, a turn takes the difference of two offsets to the
/// difference of what it takes them to; so the turned offsets of two points
/// differ, component by component, by at most one raw unit from the turned
/// difference of the points.
pub proof fn lemma_turn_of_difference(p: Vector, q: Vector, c: int, s: int)
    ensures
        -1 <= turn_offset(p, c, s).x - turn_offset(q, c, s).x - turn_offset(
            Vector { x: p.x - q.x, y: p.y - q.y },
            c,
            s,
        ).x <= 1,
        -1 <= turn_offset(p, c, s).y - turn_offset(q, c, s).y - turn_offset(
            Vector { x: p.x - q.x, y: p.y - q.y },
            c,
            s,
        ).y <= 1,
{
    let np = p.x * c - p.y * s;
    let nq = q.x * c - q.y * s;
    let nd = (p.x - q.x) * c - (p.y - q.y) * s;
    assert(nd == np - nq) by (nonlinear_arith)
        requires
            np == p.x * c - p.y * s,
            nq == q.x * c - q.y * s,
            nd == (p.x - q.x) * c - (p.y - q.y) * s,
    ;
    let mp = p.x * s + p.y * c;
    let mq = q.x * s + q.y * c;
    let md = (p.x - q.x) * s + (p.y - q.y) * c;
    assert(md == mp - mq) by (nonlinear_arith)
        requires
            mp == p.x * s + p.y * c,
            mq == q.x * s + q.y * c,
            md == (p.x - q.x) * s + (p.y - q.y) * c,
    ;
    lemma_round_quot(np, TURN_SCALE as int);
    lemma_round_quot(nq, TURN_SCALE as int);
    lemma_round_quot(nd, TURN_SCALE as int);
    lemma_round_quot(mp, TURN_SCALE as int);
    lemma_round_quot(mq, TURN_SCALE as int);
    lemma_round_quot(md, TURN_SCALE as int);
}

/// A turned offset is no longer, component by component, than the sum of the
/// magnitudes of the components of the offset.
pub proof fn lemma_turn_offset_bound(d: Vector, c: int, s: int)
    requires
        -TURN_SCALE <= c <= TURN_SCALE,
        -TURN_SCALE <= s <= TURN_SCALE,
    ensures
        -taxicab(d) <= turn_offset(d, c, s).x <= taxicab(d),
        -taxicab(d) <= turn_offset(d, c, s).y <= taxicab(d),
{
    let t = taxicab(d);
    assert(-(t * TURN_SCALE) <= d.x * c - d.y * s <= t * TURN_SCALE) by (nonlinear_arith)
        requires
            -1_000_000_000_000 <= c <= 1_000_000_000_000,
            -1_000_000_000_000 <= s <= 1_000_000_000_000,
            t == (if d.x < 0 {
                -d.x
            } else {
                d.x
            }) + (if d.y < 0 {
                -d.y
            } else {
                d.y
            }),
    ;
    assert(-(t * TURN_SCALE) <= d.x * s + d.y * c <= t * TURN_SCALE) by (nonlinear_arith)
        requires
            -1_000_000_000_000 <= c <= 1_000_000_000_000,
            -1_000_000_000_000 <= s <= 1_000_000_000_000,
            t == (if d.x < 0 {
                -d.x
            } else {
                d.x
            }) + (if d.y < 0 {
                -d.y
            } else {
                d.y
            }),
    ;
    lemma_round_quot(d.x * c - d.y * s, TURN_SCALE as int);
    lemma_round_quot(d.x * s + d.y * c, TURN_SCALE as int);
}

/// A point that can turn about a pivot is taken by a turn to the pivot plus
/// its turned offset, exactly, and stays in range.
pub proof fn lemma_turned(p: Vector, c: int, s: int, pivot: Vector)
    requires
        can_turn(p, pivot),
        -TURN_SCALE <= c <= TURN_SCALE,
        -TURN_SCALE <= s <= TURN_SCALE,
    ensures
        p.turned(c, s, pivot).x == pivot.x + turn_offset(
            Vector { x: p.x - pivot.x, y: p.y - pivot.y },
            c,
            s,
        ).x,
        p.turned(c, s, pivot).y == pivot.y + turn_offset(
            Vector { x: p.x - pivot.x, y: p.y - pivot.y },
            c,
            s,
        ).y,
        p.turned(c, s, pivot).in_range(),
{
    lemma_turn_offset_bound(Vector { x: p.x - pivot.x, y: p.y - pivot.y }, c, s);
}

/// An offset that is turned and then turned back by the same angle returns,
/// component by component, to within one and a half raw units plus the offset
/// times the defect of the turn.
pub proof fn lemma_turn_offset_back(d: Vector, c: int, s: int)
    requires
        -TURN_SCALE <= c <= TURN_SCALE,
        -TURN_SCALE <= s <= TURN_SCALE,
    ensures
        returned_offset(d.x, turn_offset(turn_offset(d, c, s), c, -s).x, defect(c, s)),
        returned_offset(d.y, turn_offset(turn_offset(d, c, s), c, -s).y, defect(c, s)),
{
    let n1 = d.x * c - d.y * s;
    let n2 = d.x * s + d.y * c;
    let rx = round_quot(n1, TURN_SCALE as int);
    let ry = round_quot(n2, TURN_SCALE as int);
    lemma_round_quot(n1, TURN_SCALE as int);
    lemma_round_quot(n2, TURN_SCALE as int);
    let e1 = n1 - 1_000_000_000_000 * rx;
    let e2 = n2 - 1_000_000_000_000 * ry;
    assert(-1_000_000_000_000 <= 2 * e1 < 1_000_000_000_000);
    assert(-1_000_000_000_000 <= 2 * e2 < 1_000_000_000_000);
    let m1 = rx * c - ry * (-s);
    let m2 = rx * (-s) + ry * c;
    let bx = round_quot(m1, TURN_SCALE as int);
    let by = round_quot(m2, TURN_SCALE as int);
    lemma_round_quot(m1, TURN_SCALE as int);
    lemma_round_quot(m2, TURN_SCALE as int);
    let e3 = m1 - 1_000_000_000_000 * bx;
    let e4 = m2 - 1_000_000_000_000 * by;
    assert(-1_000_000_000_000 <= 2 * e3 < 1_000_000_000_000);
    assert(-1_000_000_000_000 <= 2 * e4 < 1_000_000_000_000);
    assert(turn_offset(d, c, s) == (Vector { x: rx, y: ry }));
    assert(turn_offset(Vector { x: rx, y: ry }, c, -s) == (Vector { x: bx, y: by }));
    let delta = defect(c, s);
    let srx = 1_000_000_000_000 * rx;
    let sry = 1_000_000_000_000 * ry;
    assert(1_000_000_000_000 * m1 == srx * c + sry * s) by (nonlinear_arith)
        requires
            m1 == rx * c - ry * (-s),
            srx == 1_000_000_000_000 * rx,
            sry == 1_000_000_000_000 * ry,
    ;
    assert(1_000_000_000_000 * m2 == sry * c - srx * s) by (nonlinear_arith)
        requires
            m2 == rx * (-s) + ry * c,
            srx == 1_000_000_000_000 * rx,
            sry == 1_000_000_000_000 * ry,
    ;
    let cs = c * s;
    let cc = c * c;
    let ss = s * s;
    assert(srx * c == d.x * cc - d.y * cs - e1 * c) by (nonlinear_arith)
        requires
            srx == d.x * c - d.y * s - e1,
            cs == c * s,
            cc == c * c,
    ;
    assert(sry * s == d.x * ss + d.y * cs - e2 * s) by (nonlinear_arith)
        requires
            sry == d.x * s + d.y * c - e2,
            cs == c * s,
            ss == s * s,
    ;
    assert(sry * c == d.x * cs + d.y * cc - e2 * c) by (nonlinear_arith)
        requires
            sry == d.x * s + d.y * c - e2,
            cs == c * s,
            cc == c * c,
    ;
    assert(srx * s == d.x * cs - d.y * ss - e1 * s) by (nonlinear_arith)
        requires
            srx == d.x * c - d.y * s - e1,
            cs == c * s,
            ss == s * s,
    ;
    assert(d.x * (cc + ss) == d.x * cc + d.x * ss) by (nonlinear_arith);
    assert(d.y * (cc + ss) == d.y * cc + d.y * ss) by (nonlinear_arith);
    assert(1_000_000_000_000 * m1 == d.x * (c * c + s * s) - e1 * c - e2 * s);
    assert(1_000_000_000_000 * m2 == d.y * (c * c + s * s) + e1 * s - e2 * c);
    let t2 = 1_000_000_000_000_000_000_000_000int;
    assert(-t2 <= 2 * (e1 * c) <= t2 && -t2 <= 2 * (e2 * s) <= t2 && -t2 <= 2 * (e1 * s) <= t2
        && -t2 <= 2 * (e2 * c) <= t2) by (nonlinear_arith)
        requires
            -1_000_000_000_000 <= 2 * e1 <= 1_000_000_000_000,
            -1_000_000_000_000 <= 2 * e2 <= 1_000_000_000_000,
            -1_000_000_000_000 <= c <= 1_000_000_000_000,
            -1_000_000_000_000 <= s <= 1_000_000_000_000,
            t2 == 1_000_000_000_000_000_000_000_000,
    ;
    assert(TURN_SCALE * TURN_SCALE == t2) by (nonlinear_arith)
        requires
            TURN_SCALE == 1_000_000_000_000,
            t2 == 1_000_000_000_000_000_000_000_000,
    ;
    assert(d.x * (c * c + s * s) == d.x * delta + d.x * t2) by (nonlinear_arith)
        requires
            delta == c * c + s * s - t2,
    ;
    assert(d.y * (c * c + s * s) == d.y * delta + d.y * t2) by (nonlinear_arith)
        requires
            delta == c * c + s * s - t2,
    ;
    assert(TURN_SCALE * TURN_SCALE * (bx - d.x) == t2 * bx - t2 * d.x) by (nonlinear_arith)
        requires
            TURN_SCALE * TURN_SCALE == t2,
    ;
    assert(TURN_SCALE * TURN_SCALE * (by - d.y) == t2 * by - t2 * d.y) by (nonlinear_arith)
        requires
            TURN_SCALE * TURN_SCALE == t2,
    ;
    assert(t2 * bx == 1_000_000_000_000 * (1_000_000_000_000 * bx));
    assert(t2 * by == 1_000_000_000_000 * (1_000_000_000_000 * by));
}

/// The raw value `q` is the raw value `p` to within one and a half raw units
/// plus `p` times `defect` over the square of `TURN_SCALE`.
pub open spec fn returned_offset(p: int, q: int, defect: int) -> bool {
    -3 * (TURN_SCALE * TURN_SCALE) <= 2 * (TURN_SCALE * TURN_SCALE * (q - p) - p * defect) <= 3
        * (TURN_SCALE * TURN_SCALE)
}

/// A point that is turned about a pivot by an angle and then by the opposite
/// angle returns, component by component, to within one and a half raw units
/// plus its offset from the pivot times the defect of the turn.
pub proof fn lemma_rotated_back(p: Vector, angle: int, pivot: Vector)
    requires
        can_turn_twice(p, pivot),
    ensures
        returned(
            p,
            p.rotated(angle, pivot).rotated(-angle, pivot),
            pivot,
            defect(turn_cos(angle), turn_sin(angle)),
        ),
{
    let c = turn_cos(angle);
    let s = turn_sin(angle);
    lemma_turn_range(angle);
    lemma_turn_negated(angle);
    let d = Vector { x: p.x - pivot.x, y: p.y - pivot.y };
    let r = turn_offset(d, c, s);
    lemma_turned(p, c, s, pivot);
    lemma_turn_offset_bound(d, c, s);
    let q = p.turned(c, s, pivot);
    assert(q == (Vector { x: pivot.x + r.x, y: pivot.y + r.y }));
    assert(Vector { x: q.x - pivot.x, y: q.y - pivot.y } == r);
    lemma_turn_offset_back(d, c, s);
    assert(can_turn(q, pivot));
    lemma_turned(q, c, -s, pivot);
}

/// Turning by the angle zero moves no point that can turn.
pub proof fn lemma_rotated_by_zero(p: Vector, pivot: Vector)
    requires
        can_turn(p, pivot),
    ensures
        p.rotated(0, pivot) == p,
{
    lemma_turn_range(0);
    let d = Vector { x: p.x - pivot.x, y: p.y - pivot.y };
    assert(d.x * 1_000_000_000_000 - d.y * 0 == d.x * 1_000_000_000_000);
    assert(d.x * 0 + d.y * 1_000_000_000_000 == d.y * 1_000_000_000_000);
    lemma_round_quot(d.x * 1_000_000_000_000, TURN_SCALE as int);
    lemma_round_quot(d.y * 1_000_000_000_000, TURN_SCALE as int);
}

/// The magnitude of a number.
pub open spec fn magnitude(x: int) -> int {
    if x < 0 {
        -x
    } else {
        x
    }
}

/// A number within `h` of `u` has a square within `2 h |u| + h^2` of the
/// square of `u`.
pub proof fn lemma_square_near(a: int, u: int, h: int)
    requires
        h >= 0,
        -h <= a - u <= h,
    ensures
        -(2 * h * magnitude(u) + h * h) <= a * a - u * u <= 2 * h * magnitude(u) + h * h,
{
    let e = a - u;
    let m = magnitude(u);
    assert(a * a - u * u == 2 * (e * u) + e * e) by (nonlinear_arith)
        requires
            e == a - u,
    ;
    assert(-(h * m) <= e * u <= h * m) by (nonlinear_arith)
        requires
            -h <= e <= h,
            -m <= u <= m,
            h >= 0,
            m >= 0,
    ;
    assert(0 <= e * e <= h * h) by (nonlinear_arith)
        requires
            -h <= e <= h,
            h >= 0,
    ;
    assert(2 * h * m == 2 * (h * m)) by (nonlinear_arith);
}

/// Two points that are turned about the same pivot by the same angle.  Let
/// `(u, v)` be their difference, turned and not rounded, in raw times fine
/// units.  The difference of the turned points is, component by component,
/// within one and a half raw units of `(u, v)`.  The squared length of
/// `(u, v)` is the squared distance of the points times the squared length
/// of the turn.  So the squared distance of the turned points differs from
/// that of the points by the defect of the turn times that squared distance,
/// and beyond that by no more than `1.5 (|2u| + |2v|) / TURN_SCALE + 4.5`
/// squared raw units.
pub proof fn lemma_rotated_difference(p: Vector, q: Vector, angle: int, pivot: Vector)
    requires
        can_turn(p, pivot),
        can_turn(q, pivot),
    ensures
        ({
            let c = turn_cos(angle);
            let s = turn_sin(angle);
            let u = (p.x - q.x) * c - (p.y - q.y) * s;
            let v = (p.x - q.x) * s + (p.y - q.y) * c;
            let turned_p = p.rotated(angle, pivot);
            let turned_q = q.rotated(angle, pivot);
            let before = (p.x - q.x) * (p.x - q.x) + (p.y - q.y) * (p.y - q.y);
            let after = (turned_p.x - turned_q.x) * (turned_p.x - turned_q.x) + (turned_p.y
                - turned_q.y) * (turned_p.y - turned_q.y);
            let slack = 6 * TURN_SCALE * (magnitude(2 * u) + magnitude(2 * v)) + 18 * (TURN_SCALE
                * TURN_SCALE);
            &&& -3 * TURN_SCALE <= 2 * (TURN_SCALE * (turned_p.x - turned_q.x) - u) <= 3
                * TURN_SCALE
            &&& -3 * TURN_SCALE <= 2 * (TURN_SCALE * (turned_p.y - turned_q.y) - v) <= 3
                * TURN_SCALE
            &&& u * u + v * v == (c * c + s * s) * before
            &&& -slack <= 4 * (TURN_SCALE * TURN_SCALE * (after - before) - defect(c, s) * before)
                <= slack
        }),
{
    let c = turn_cos(angle);
    let s = turn_sin(angle);
    lemma_turn_range(angle);
    lemma_turned(p, c, s, pivot);
    lemma_turned(q, c, s, pivot);
    let dp = Vector { x: p.x - pivot.x, y: p.y - pivot.y };
    let dq = Vector { x: q.x - pivot.x, y: q.y - pivot.y };
    lemma_turn_of_difference(dp, dq, c, s);
    assert(Vector { x: dp.x - dq.x, y: dp.y - dq.y } == (Vector { x: p.x - q.x, y: p.y - q.y }));
    lemma_turn_scales_length(p.x - q.x, p.y - q.y, c, s);
    let u = (p.x - q.x) * c - (p.y - q.y) * s;
    let v = (p.x - q.x) * s + (p.y - q.y) * c;
    lemma_round_quot(u, TURN_SCALE as int);
    lemma_round_quot(v, TURN_SCALE as int);
    let turned_p = p.rotated(angle, pivot);
    let turned_q = q.rotated(angle, pivot);
    let wx = turned_p.x - turned_q.x;
    let wy = turned_p.y - turned_q.y;
    let t = 1_000_000_000_000int;
    let ax = 2 * t * wx;
    let ay = 2 * t * wy;
    let h = 3 * t;
    lemma_square_near(ax, 2 * u, h);
    lemma_square_near(ay, 2 * v, h);
    let before = (p.x - q.x) * (p.x - q.x) + (p.y - q.y) * (p.y - q.y);
    let after = wx * wx + wy * wy;
    assert(ax * ax == 4 * (t * t) * (wx * wx)) by (nonlinear_arith)
        requires
            ax == 2 * t * wx,
    ;
    assert(ay * ay == 4 * (t * t) * (wy * wy)) by (nonlinear_arith)
        requires
            ay == 2 * t * wy,
    ;
    assert((2 * u) * (2 * u) == 4 * (u * u)) by (nonlinear_arith);
    assert((2 * v) * (2 * v) == 4 * (v * v)) by (nonlinear_arith);
    assert(4 * (t * t) * (wx * wx) + 4 * (t * t) * (wy * wy) == 4 * (t * t * after))
        by (nonlinear_arith)
        requires
            after == wx * wx + wy * wy,
    ;
    assert(TURN_SCALE * TURN_SCALE == t * t) by (nonlinear_arith)
        requires
            TURN_SCALE == 1_000_000_000_000,
            t == 1_000_000_000_000,
    ;
    assert((c * c + s * s) * before == defect(c, s) * before + t * t * before)
        by (nonlinear_arith)
        requires
            defect(c, s) == c * c + s * s - t * t,
    ;
    assert(2 * h * magnitude(2 * u) == 3 * TURN_SCALE * (2 * magnitude(2 * u)))
        by (nonlinear_arith)
        requires
            h == 3 * t,
            TURN_SCALE == t,
    ;
    assert(2 * h * magnitude(2 * v) == 3 * TURN_SCALE * (2 * magnitude(2 * v)))
        by (nonlinear_arith)
        requires
            h == 3 * t,
            TURN_SCALE == t,
    ;
    assert(h * h == 9 * (t * t)) by (nonlinear_arith)
        requires
            h == 3 * t,
    ;
    assert(t * t * (after - before) == t * t * after - t * t * before) by (nonlinear_arith);
    assert(-h <= ax - 2 * u <= h);
    assert(-h <= ay - 2 * v <= h);
    let mu = magnitude(2 * u);
    let mv = magnitude(2 * v);
    assert(3 * TURN_SCALE * (2 * mu) + 3 * TURN_SCALE * (2 * mv) == 6 * TURN_SCALE * (mu + mv))
        by (nonlinear_arith);
    let total = 4 * (t * t * after) - 4 * (u * u + v * v);
    assert(total == (ax * ax - (2 * u) * (2 * u)) + (ay * ay - (2 * v) * (2 * v)));
    assert(4 * (u * u + v * v) == 4 * (defect(c, s) * before) + 4 * (t * t * before));
    assert(total == 4 * (t * t * (after - before) - defect(c, s) * before));
}

/// The distance of two points, rounded down.
pub open spec fn distance(p: Vector, q: Vector) -> int {
    isqrt((p.x - q.x) * (p.x - q.x) + (p.y - q.y) * (p.y - q.y))
}

/// Two points that are turned about the same pivot by the same angle keep
/// their distance to within twenty raw units.
pub proof fn lemma_rotated_distance(p: Vector, q: Vector, angle: int, pivot: Vector)
    requires
        can_turn(p, pivot),
        can_turn(q, pivot),
    ensures
        -20 <= distance(p.rotated(angle, pivot), q.rotated(angle, pivot)) - distance(p, q) <= 20,
{
    lemma_rotated_difference(p, q, angle, pivot);
    lemma_turn_range(angle);
    let c = turn_cos(angle);
    let s = turn_sin(angle);
    let dx = p.x - q.x;
    let dy = p.y - q.y;
    let u = dx * c - dy * s;
    let v = dx * s + dy * c;
    let turned_p = p.rotated(angle, pivot);
    let turned_q = q.rotated(angle, pivot);
    let wx = turned_p.x - turned_q.x;
    let wy = turned_p.y - turned_q.y;
    let before = dx * dx + dy * dy;
    let after = wx * wx + wy * wy;
    let delta = defect(c, s);
    let t = 1_000_000_000_000int;
    let tt = t * t;
    assert(TURN_SCALE * TURN_SCALE == tt) by (nonlinear_arith)
        requires
            TURN_SCALE == 1_000_000_000_000,
            tt == 1_000_000_000_000int * 1_000_000_000_000int,
    ;
    assert(dx * dx >= 0 && dy * dy >= 0 && wx * wx >= 0 && wy * wy >= 0) by (nonlinear_arith);
    lemma_isqrt(before);
    lemma_isqrt(after);
    let r = isqrt(before);
    let a = isqrt(after);
    let mx = magnitude(dx);
    let my = magnitude(dy);
    let taxi = mx + my;
    assert(mx <= r) by (nonlinear_arith)
        requires
            dx * dx <= before,
            before < (r + 1) * (r + 1),
            r >= 0,
            mx == if dx < 0 {
                -dx
            } else {
                dx
            },
    ;
    assert(my <= r) by (nonlinear_arith)
        requires
            dy * dy <= before,
            before < (r + 1) * (r + 1),
            r >= 0,
            my == if dy < 0 {
                -dy
            } else {
                dy
            },
    ;
    assert(r < 3 * t) by (nonlinear_arith)
        requires
            -2 * t <= dx <= 2 * t,
            -2 * t <= dy <= 2 * t,
            r * r <= dx * dx + dy * dy,
            r >= 0,
            t > 0,
    ;
    assert(magnitude(2 * u) <= 2 * (t * taxi) && magnitude(2 * v) <= 2 * (t * taxi))
        by (nonlinear_arith)
        requires
            u == dx * c - dy * s,
            v == dx * s + dy * c,
            -t <= c <= t,
            -t <= s <= t,
            taxi == (if dx < 0 {
                -dx
            } else {
                dx
            }) + (if dy < 0 {
                -dy
            } else {
                dy
            }),
    ;
    let slack = 6 * TURN_SCALE * (magnitude(2 * u) + magnitude(2 * v)) + 18 * (TURN_SCALE
        * TURN_SCALE);
    assert(slack <= 48 * (tt * r) + 18 * tt) by (nonlinear_arith)
        requires
            slack == 6 * t * (magnitude(2 * u) + magnitude(2 * v)) + 18 * tt,
            magnitude(2 * u) <= 2 * (t * taxi),
            magnitude(2 * v) <= 2 * (t * taxi),
            0 <= taxi <= 2 * r,
            tt == t * t,
            t > 0,
    ;
    assert(-(2 * (t * before)) <= delta * before <= 0) by (nonlinear_arith)
        requires
            -2 * t <= delta <= 0,
            before >= 0,
    ;
    let diff = after - before;
    assert(tt * diff == TURN_SCALE * TURN_SCALE * (after - before));
    assert(diff <= 12 * r + 4) by (nonlinear_arith)
        requires
            4 * (tt * diff - delta * before) <= slack,
            slack <= 48 * (tt * r) + 18 * tt,
            delta * before <= 0,
            tt > 0,
    ;
    assert(2 * before <= 6 * (t * r) + 12 * t) by (nonlinear_arith)
        requires
            before < (r + 1) * (r + 1),
            0 <= r < 3 * t,
            t > 0,
    ;
    assert(tt * diff >= -(18 * (tt * r)) - 17 * tt) by (nonlinear_arith)
        requires
            -slack <= 4 * (tt * diff - delta * before),
            slack <= 48 * (tt * r) + 18 * tt,
            -(2 * (t * before)) <= delta * before,
            2 * before <= 6 * (t * r) + 12 * t,
            tt == t * t,
            t > 0,
            r >= 0,
    ;
    assert(diff >= -18 * r - 17) by (nonlinear_arith)
        requires
            tt * diff >= -(18 * (tt * r)) - 17 * tt,
            tt > 0,
    ;
    assert(a <= r + 6) by (nonlinear_arith)
        requires
            a * a <= after,
            after == before + diff,
            diff <= 12 * r + 4,
            before < (r + 1) * (r + 1),
            a >= 0,
            r >= 0,
    ;
    assert(a >= r - 20) by (nonlinear_arith)
        requires
            after < (a + 1) * (a + 1),
            after == before + diff,
            diff >= -18 * r - 17,
            r * r <= before,
            a >= 0,
            r >= 0,
    ;
}

/// The point `q` is the point `p`, component by component, to within one and
/// a half raw units plus the offset of `p` from the pivot times `defect` over
/// the square of `TURN_SCALE`.
pub open spec fn returned(p: Vector, q: Vector, pivot: Vector, defect: int) -> bool {
    &&& -3 * (TURN_SCALE * TURN_SCALE) <= 2 * (TURN_SCALE * TURN_SCALE * (q.x - p.x) - (p.x
        - pivot.x) * defect) <= 3 * (TURN_SCALE * TURN_SCALE)
    &&& -3 * (TURN_SCALE * TURN_SCALE) <= 2 * (TURN_SCALE * TURN_SCALE * (q.y - p.y) - (p.y
        - pivot.y) * defect) <= 3 * (TURN_SCALE * TURN_SCALE)
}

/// Every point of the body can turn twice about the pivot: those of its
/// shape, its anchors, its joint if dynamic, and all of this in its children.
pub open spec fn body_can_turn_twice(b: BodyView, pivot: Vector) -> bool
    decreases b,
{
    &&& forall|id: usize|
        b.anchors.contains_key(id) ==> can_turn_twice(#[trigger] b.anchors[id], pivot)
    &&& b.pivot.is_dynamic ==> can_turn_twice(b.pivot.position, pivot)
    &&& match b.shape {
        ShapeView::Circle { center, .. } => can_turn_twice(center, pivot),
        ShapeView::Line { start, end, .. } => can_turn_twice(start, pivot) && can_turn_twice(
            end,
            pivot,
        ),
        ShapeView::Group { objects, com } => can_turn_twice(com, pivot) && forall|i: int|
            0 <= i < objects.len() ==> body_can_turn_twice(#[trigger] objects[i], pivot),
    }
}

/// The point `q` is the point `p` to within `eps` raw units in each component.
pub open spec fn near(p: Vector, q: Vector, eps: int) -> bool {
    &&& -eps <= q.x - p.x <= eps
    &&& -eps <= q.y - p.y <= eps
}

/// The body `r` is the body `b` but for its points, each of which is that of
/// `b` to within `eps` raw units in each component: those of its shape, its
/// anchors, its joint if dynamic, and all of this in its children.
pub open spec fn body_near(b: BodyView, r: BodyView, eps: int) -> bool
    decreases b,
{
    &&& r.mass == b.mass
    &&& r.velocity == b.velocity
    &&& r.ang_velocity == b.ang_velocity
    &&& r.friction == b.friction
    &&& r.is_static == b.is_static
    &&& r.id == b.id
    &&& r.pivot.is_dynamic == b.pivot.is_dynamic
    &&& if b.pivot.is_dynamic {
        near(b.pivot.position, r.pivot.position, eps)
    } else {
        r.pivot == b.pivot
    }
    &&& forall|id: usize| r.anchors.contains_key(id) <==> b.anchors.contains_key(id)
    &&& forall|id: usize|
        b.anchors.contains_key(id) ==> near(#[trigger] b.anchors[id], r.anchors[id], eps)
    &&& match b.shape {
        ShapeView::Circle { center, radius, color } => r.shape matches ShapeView::Circle {
            center: center2,
            radius: radius2,
            color: color2,
        } && radius2 == radius && color2 == color && near(center, center2, eps),
        ShapeView::Line { start, end, color } => r.shape matches ShapeView::Line {
            start: start2,
            end: end2,
            color: color2,
        } && color2 == color && near(start, start2, eps) && near(end, end2, eps),
        ShapeView::Group { objects, com } => r.shape matches ShapeView::Group {
            objects: objects2,
            com: com2,
        } && near(com, com2, eps) && objects2.len() == objects.len() && forall|i: int|
            0 <= i < objects.len() ==> body_near(#[trigger] objects[i], objects2[i], eps),
    }
}

/// A point that is turned about a pivot by an angle and then by the opposite
/// angle returns to within three raw units in each component.
pub proof fn lemma_rotated_back_near(p: Vector, angle: int, pivot: Vector)
    requires
        can_turn_twice(p, pivot),
    ensures
        near(p, p.rotated(angle, pivot).rotated(-angle, pivot), 3),
{
    lemma_rotated_back(p, angle, pivot);
    lemma_turn_range(angle);
    let q = p.rotated(angle, pivot).rotated(-angle, pivot);
    let delta = defect(turn_cos(angle), turn_sin(angle));
    let t = 1_000_000_000_000int;
    assert(TURN_SCALE * TURN_SCALE == t * t) by (nonlinear_arith)
        requires
            TURN_SCALE == 1_000_000_000_000,
            t == 1_000_000_000_000,
    ;
    let ox = p.x - pivot.x;
    let oy = p.y - pivot.y;
    assert(-(2 * (t * t)) <= ox * delta <= 2 * (t * t)) by (nonlinear_arith)
        requires
            -t <= ox <= t,
            -2 * t <= delta <= 0,
            t > 0,
    ;
    assert(-(2 * (t * t)) <= oy * delta <= 2 * (t * t)) by (nonlinear_arith)
        requires
            -t <= oy <= t,
            -2 * t <= delta <= 0,
            t > 0,
    ;
    let ex = q.x - p.x;
    let ey = q.y - p.y;
    assert(-3 <= ex <= 3) by (nonlinear_arith)
        requires
            -3 * (t * t) <= 2 * (t * t * ex - ox * delta) <= 3 * (t * t),
            -(2 * (t * t)) <= ox * delta <= 2 * (t * t),
            t * t > 0,
    ;
    assert(-3 <= ey <= 3) by (nonlinear_arith)
        requires
            -3 * (t * t) <= 2 * (t * t * ey - oy * delta) <= 3 * (t * t),
            -(2 * (t * t)) <= oy * delta <= 2 * (t * t),
            t * t > 0,
    ;
}

/// A body that is turned about a pivot by an angle and then by the opposite
/// angle is the body it was, but that each of its points has returned only to
/// within three raw units in each component.
pub proof fn lemma_rotate_back(b: BodyView, angle: int, pivot: Vector)
    requires
        body_can_turn_twice(b, pivot),
    ensures
        body_near(b, b.rotate(angle, pivot).rotate(-angle, pivot), 3),
    decreases b,
{
    let r = b.rotate(angle, pivot).rotate(-angle, pivot);
    if b.pivot.is_dynamic {
        lemma_rotated_back_near(b.pivot.position, angle, pivot);
    }
    assert forall|id: usize| b.anchors.contains_key(id) implies near(
        #[trigger] b.anchors[id],
        r.anchors[id],
        3,
    ) by {
        lemma_rotated_back_near(b.anchors[id], angle, pivot);
    }
    match b.shape {
        ShapeView::Circle { center, .. } => {
            lemma_rotated_back_near(center, angle, pivot);
        },
        ShapeView::Line { start, end, .. } => {
            lemma_rotated_back_near(start, angle, pivot);
            lemma_rotated_back_near(end, angle, pivot);
        },
        ShapeView::Group { objects, com } => {
            lemma_rotated_back_near(com, angle, pivot);
            let objects2 = r.shape->Group_objects;
            assert(objects2.len() == objects.len());
            assert forall|i: int| 0 <= i < objects.len() implies body_near(
                #[trigger] objects[i],
                objects2[i],
                3,
            ) by {
                lemma_rotate_back(objects[i], angle, pivot);
                assert(objects2[i] == objects[i].rotate(angle, pivot).rotate(-angle, pivot));
            }
        },
    }
}

/// Every point of the body can turn about the pivot: those of its shape, its
/// anchors, its joint if dynamic, and all of this in its children.
pub open spec fn body_can_turn(b: BodyView, pivot: Vector) -> bool
    decreases b,
{
    &&& forall|id: usize| b.anchors.contains_key(id) ==> can_turn(#[trigger] b.anchors[id], pivot)
    &&& b.pivot.is_dynamic ==> can_turn(b.pivot.position, pivot)
    &&& match b.shape {
        ShapeView::Circle { center, .. } => can_turn(center, pivot),
        ShapeView::Line { start, end, .. } => can_turn(start, pivot) && can_turn(end, pivot),
        ShapeView::Group { objects, com } => can_turn(com, pivot) && forall|i: int|
            0 <= i < objects.len() ==> body_can_turn(#[trigger] objects[i], pivot),
    }
}

/// Turning by the angle zero changes no body whose points can turn.
pub proof fn lemma_rotate_by_zero(b: BodyView, pivot: Vector)
    requires
        body_can_turn(b, pivot),
    ensures
        b.rotate(0, pivot) == b,
    decreases b,
{
    let r = b.rotate(0, pivot);
    if b.pivot.is_dynamic {
        lemma_rotated_by_zero(b.pivot.position, pivot);
    }
    assert forall|id: usize| b.anchors.contains_key(id) implies r.anchors[id]
        == #[trigger] b.anchors[id] by {
        lemma_rotated_by_zero(b.anchors[id], pivot);
    }
    assert(r.anchors =~= b.anchors);
    match b.shape {
        ShapeView::Circle { center, .. } => {
            lemma_rotated_by_zero(center, pivot);
        },
        ShapeView::Line { start, end, .. } => {
            lemma_rotated_by_zero(start, pivot);
            lemma_rotated_by_zero(end, pivot);
        },
        ShapeView::Group { objects, com } => {
            lemma_rotated_by_zero(com, pivot);
            let turned = r.shape->Group_objects;
            assert forall|i: int| 0 <= i < objects.len() implies turned[i] == objects[i] by {
                lemma_rotate_by_zero(objects[i], pivot);
            }
            assert(turned =~= objects);
        },
    }
}

} // verus!
