//! The centre of mass of a group and the centres of mass of its children.
//!
//! A group records its centre of mass when a child is added.  Moving the
//! group keeps the record true: the recorded centre is still the
//! mass-weighted mean of the children's.  Turning the group rounds every
//! point anew, and leaves the record within seven raw units of the mean.

use vstd::prelude::*;
use vstd::arithmetic::div_mod::lemma_hoist_over_denominator;
use crate::model::midpoint;
use crate::model::moment_x;
use crate::model::moment_y;
use crate::model::weighted_mean;
use crate::model::BodyView;
use crate::dynamics::advanced;
use crate::dynamics::slowed;
use crate::rotation::body_can_turn;
use crate::rotation::can_turn;
use crate::rotation::near;
use crate::rotation::lemma_turn_of_difference;
use crate::rotation::lemma_turn_offset_bound;
use crate::rotation::lemma_turned;
use crate::rotation::taxicab;
use crate::scalar::lemma_round_quot;
use crate::scalar::lemma_turn_range;
use crate::scalar::turn_cos;
use crate::scalar::turn_sin;
use crate::scalar::TURN_SCALE;
use crate::model::ShapeView;
use crate::rotation::lemma_rotate_by_zero;
use crate::scalar::raw_mul;
use crate::scalar::LIMIT;
use crate::displacement::lemma_com_has_room;
use crate::displacement::lemma_shifted_children;
use crate::displacement::lemma_shifted_shape;
use crate::displacement::moved;
use crate::displacement::shape_has_room;
use crate::displacement::shifted;
use crate::displacement::shifted_all;
use crate::vec2d::Vector;

verus! {

/// The most children of a group for which no sum of moments is pinned.
pub const MANY: i64 = 1_000_000_000_000;

/// The sum of the masses of the first `n` bodies, exactly.
pub open spec fn exact_mass(objects: Seq<BodyView>, n: int) -> int
    decreases n,
{
    if n <= 0 {
        0
    } else {
        exact_mass(objects, n - 1) + objects[n - 1].mass
    }
}

/// The masses and the centres of mass of the bodies are within the range of
/// a scalar, and a group without children has no mass.
pub open spec fn all_in_range(objects: Seq<BodyView>) -> bool {
    forall|i: int|
        0 <= i < objects.len() ==> {
            &&& -LIMIT <= (#[trigger] objects[i]).mass <= LIMIT
            &&& objects[i].com().in_range()
            &&& objects[i].childless() ==> objects[i].mass == 0
        }
}

/// The group has a positive mass, the sum of the masses of its children, and
/// its centre of mass is in range and is the mass-weighted mean of the
/// centres of mass of its children.
pub open spec fn centred(b: BodyView) -> bool {
    &&& b.shape is Group
    &&& b.mass > 0
    &&& b.mass == exact_mass(b.children(), b.children().len() as int)
    &&& b.com().in_range()
    &&& b.com().x == moment_x(b.children(), b.children().len() as int) / b.mass
    &&& b.com().y == moment_y(b.children(), b.children().len() as int) / b.mass
}

/// The centre of mass of a centred group is the mass-weighted mean of its
/// children's, as a group records it when a child is added.
pub proof fn lemma_centred_mean(b: BodyView)
    requires
        centred(b),
    ensures
        b.com() == weighted_mean(b.children(), b.mass),
{
}

/// The sum of the moments of up to `MANY` bodies in range is not pinned: it
/// is at most the number of bodies times the square of `LIMIT`.
pub proof fn lemma_moment_bound(objects: Seq<BodyView>, n: int)
    requires
        0 <= n <= objects.len(),
        n <= MANY,
        all_in_range(objects),
    ensures
        -n * (LIMIT * LIMIT) <= moment_x(objects, n) <= n * (LIMIT * LIMIT),
        -n * (LIMIT * LIMIT) <= moment_y(objects, n) <= n * (LIMIT * LIMIT),
        n > 0 ==> moment_x(objects, n) == moment_x(objects, n - 1) + objects[n - 1].mass
            * objects[n - 1].com().x,
        n > 0 ==> moment_y(objects, n) == moment_y(objects, n - 1) + objects[n - 1].mass
            * objects[n - 1].com().y,
    decreases n,
{
    if n > 0 {
        lemma_moment_bound(objects, n - 1);
        let m = objects[n - 1].mass;
        let c = objects[n - 1].com();
        crate::scalar::lemma_product_bound(m, c.x, LIMIT as int, LIMIT as int);
        crate::scalar::lemma_product_bound(m, c.y, LIMIT as int, LIMIT as int);
        assert(LIMIT * LIMIT == 1_000_000_000_000_000_000_000_000) by (nonlinear_arith);
        assert(n * (LIMIT * LIMIT) <= 1_000_000_000_000_000_000_000_000_000_000_000_000)
            by (nonlinear_arith)
            requires
                0 <= n <= 1_000_000_000_000,
                LIMIT * LIMIT == 1_000_000_000_000_000_000_000_000,
        ;
        assert((n - 1) * (LIMIT * LIMIT) + LIMIT * LIMIT == n * (LIMIT * LIMIT))
            by (nonlinear_arith);
    }
}

/// Moving bodies by `d` adds to the sum of their moments `d` times the sum of
/// their masses.
pub proof fn lemma_moment_shifted(objects: Seq<BodyView>, d: Vector, n: int)
    requires
        0 <= n <= objects.len(),
        n <= MANY,
        all_in_range(objects),
        forall|i: int| 0 <= i < objects.len() ==> shape_has_room(#[trigger] objects[i], d),
    ensures
        moment_x(shifted_all(objects, d), n) == moment_x(objects, n) + d.x * exact_mass(
            objects,
            n,
        ),
        moment_y(shifted_all(objects, d), n) == moment_y(objects, n) + d.y * exact_mass(
            objects,
            n,
        ),
    decreases n,
{
    if n > 0 {
        lemma_moment_shifted(objects, d, n - 1);
        let after = shifted_all(objects, d);
        assert forall|i: int| 0 <= i < after.len() implies {
            &&& -LIMIT <= (#[trigger] after[i]).mass <= LIMIT
            &&& after[i].com().in_range()
            &&& after[i].childless() ==> after[i].mass == 0
        } by {
            lemma_shifted_shape(objects[i], d);
            if !objects[i].childless() {
                lemma_com_has_room(objects[i], d);
            }
        }
        lemma_moment_bound(objects, n);
        lemma_moment_bound(after, n);
        let m = objects[n - 1].mass;
        let c = objects[n - 1].com();
        lemma_shifted_shape(objects[n - 1], d);
        assert(after[n - 1].mass == m);
        let e = exact_mass(objects, n - 1);
        if objects[n - 1].childless() {
            assert(after[n - 1].com() == c);
            assert(m * c.x == 0 && m * c.y == 0) by (nonlinear_arith)
                requires
                    m == 0,
            ;
        } else {
            lemma_com_has_room(objects[n - 1], d);
            assert(after[n - 1].com() == moved(c, d));
            assert(m * (c.x + d.x) + d.x * e == m * c.x + d.x * (e + m)) by (nonlinear_arith);
            assert(m * (c.y + d.y) + d.y * e == m * c.y + d.y * (e + m)) by (nonlinear_arith);
        }
    }
}

/// A group whose recorded centre of mass is the mass-weighted mean of its
/// children's still has it so when it is moved, provided that it has room for
/// the move and no more than `MANY` children.
pub proof fn lemma_shifted_centred(b: BodyView, d: Vector)
    requires
        centred(b),
        shape_has_room(b, d),
        all_in_range(b.children()),
        b.children().len() <= MANY,
    ensures
        centred(shifted(b, d)),
        shifted(b, d).com() == weighted_mean(shifted(b, d).children(), shifted(b, d).mass),
{
    let objects = b.children();
    let n = objects.len() as int;
    lemma_shifted_shape(b, d);
    lemma_shifted_children(b, d);
    lemma_com_has_room(b, d);
    lemma_moment_shifted(objects, d, n);
    lemma_mass_shifted(objects, d, n);
    let mx = moment_x(objects, n);
    let my = moment_y(objects, n);
    lemma_hoist_over_denominator(mx, d.x, b.mass as nat);
    lemma_hoist_over_denominator(my, d.y, b.mass as nat);
    assert(d.x * b.mass == b.mass * d.x) by (nonlinear_arith);
    assert(d.y * b.mass == b.mass * d.y) by (nonlinear_arith);
    assert(shifted(b, d).com() == moved(b.com(), d));
    assert(shifted(b, d).mass == b.mass);
    assert(moment_x(shifted(b, d).children(), n) == mx + d.x * b.mass);
    assert(moment_y(shifted(b, d).children(), n) == my + d.y * b.mass);
    lemma_centred_mean(shifted(b, d));
}

/// Moving bodies does not change the sum of their masses.
pub proof fn lemma_mass_shifted(objects: Seq<BodyView>, d: Vector, n: int)
    requires
        0 <= n <= objects.len(),
    ensures
        exact_mass(shifted_all(objects, d), n) == exact_mass(objects, n),
    decreases n,
{
    if n > 0 {
        lemma_mass_shifted(objects, d, n - 1);
    }
}

/// A group that gets a child is centred, provided that the sum of the
/// masses is positive and within the range of a scalar, and the
/// mass-weighted mean of the centres of mass is within that range.
pub proof fn lemma_add_child_centred(g: BodyView, child: BodyView)
    requires
        g.shape is Group,
        g.mass == exact_mass(g.children(), g.children().len() as int),
        0 < g.mass + child.mass <= LIMIT,
        -LIMIT <= moment_x(g.children().push(child), g.children().len() as int + 1) / (g.mass
            + child.mass) <= LIMIT,
        -LIMIT <= moment_y(g.children().push(child), g.children().len() as int + 1) / (g.mass
            + child.mass) <= LIMIT,
    ensures
        centred(g.add_child(child)),
{
    let objects = g.children().push(child);
    lemma_mass_pushed(g.children(), child, g.children().len() as int);
    assert(g.add_child(child).children() == objects);
}

/// The sum of the masses of the first bodies does not change when a body is
/// added after them.
pub proof fn lemma_mass_pushed(objects: Seq<BodyView>, last: BodyView, n: int)
    requires
        0 <= n <= objects.len(),
    ensures
        exact_mass(objects.push(last), n) == exact_mass(objects, n),
    decreases n,
{
    if n > 0 {
        lemma_mass_pushed(objects, last, n - 1);
    }
}

/// A centred group that does not turn is centred after a tick, provided that
/// it has room for the move of the tick and no more than `MANY` children.
pub proof fn lemma_advanced_centred(b: BodyView, gravity: int, timestep: int)
    requires
        centred(b),
        all_in_range(b.children()),
        b.children().len() <= MANY,
        raw_mul(b.ang_velocity, timestep) == 0,
        shape_has_room(b, slowed(b, gravity, timestep).scaled(timestep)),
        body_can_turn(
            shifted(b, slowed(b, gravity, timestep).scaled(timestep)),
            shifted(b, slowed(b, gravity, timestep).scaled(timestep)).pivot.position,
        ),
    ensures
        centred(advanced(b, gravity, timestep)),
{
    let slow = BodyView { velocity: slowed(b, gravity, timestep), ..b };
    let d = slow.velocity.scaled(timestep);
    assert(shape_has_room(slow, d));
    assert(centred(slow));
    lemma_shifted_centred(slow, d);
    let moved = shifted(slow, d);
    lemma_move_ignores_velocity(b, slow.velocity, d);
    assert(moved == (BodyView { velocity: slow.velocity, ..shifted(b, d) }));
    let pivot = moved.pivot.position;
    lemma_rotate_by_zero(shifted(b, d), pivot);
    assert(moved.rotate(0, pivot) == moved) by {
        lemma_turn_ignores_velocity(shifted(b, d), slow.velocity, pivot);
    }
}

/// Turning a body does not look at its velocity.
pub proof fn lemma_turn_ignores_velocity(b: BodyView, velocity: Vector, pivot: Vector)
    ensures
        (BodyView { velocity, ..b }).rotate(0, pivot) == (BodyView {
            velocity,
            ..b.rotate(0, pivot)
        }),
{
    let turned = (BodyView { velocity, ..b }).rotate(0, pivot);
    let other = BodyView { velocity, ..b.rotate(0, pivot) };
    assert(turned.children() =~= other.children());
    assert(turned.anchors =~= other.anchors);
}

/// Moving a body does not look at its velocity.
pub proof fn lemma_move_ignores_velocity(b: BodyView, velocity: Vector, d: Vector)
    ensures
        shifted(BodyView { velocity, ..b }, d) == (BodyView { velocity, ..shifted(b, d) }),
{
    let moved = shifted(BodyView { velocity, ..b }, d);
    let other = BodyView { velocity, ..shifted(b, d) };
    assert(moved.children() =~= other.children());
    assert(moved.anchors =~= other.anchors);
}

/// The first component of the offset of `x` from `pivot`, turned by the turn
/// `(c, s)` and not rounded, in raw times fine units.
pub open spec fn turned_x(x: Vector, pivot: Vector, c: int, s: int) -> int {
    (x.x - pivot.x) * c - (x.y - pivot.y) * s
}

/// The second component of the offset of `x` from `pivot`, turned by the turn
/// `(c, s)` and not rounded, in raw times fine units.
pub open spec fn turned_y(x: Vector, pivot: Vector, c: int, s: int) -> int {
    (x.x - pivot.x) * s + (x.y - pivot.y) * c
}

/// The point `q` is, in each component, within `k` halves of a raw unit of
/// where the turn `(c, s)` about `pivot` takes `x` when nothing is rounded.
pub open spec fn follows(q: Vector, x: Vector, pivot: Vector, c: int, s: int, k: int) -> bool {
    &&& -k * TURN_SCALE <= 2 * (TURN_SCALE * (q.x - pivot.x) - turned_x(x, pivot, c, s)) <= k
        * TURN_SCALE
    &&& -k * TURN_SCALE <= 2 * (TURN_SCALE * (q.y - pivot.y) - turned_y(x, pivot, c, s)) <= k
        * TURN_SCALE
}

/// Every point of the body can turn about the pivot, and the ends of a
/// segment are less than the range of a scalar apart, so that its midpoint is
/// found without pinning.
pub open spec fn turns_well(b: BodyView, pivot: Vector) -> bool {
    &&& body_can_turn(b, pivot)
    &&& b.shape matches ShapeView::Line { start, end, .. } ==> taxicab(
        Vector { x: end.x - start.x, y: end.y - start.y },
    ) < LIMIT
}

/// A point that can turn is taken by a turn to within half a raw unit of
/// where the turn takes it when nothing is rounded.
pub proof fn lemma_turned_follows(x: Vector, angle: int, pivot: Vector)
    requires
        can_turn(x, pivot),
    ensures
        follows(x.rotated(angle, pivot), x, pivot, turn_cos(angle), turn_sin(angle), 1),
        x.rotated(angle, pivot).in_range(),
{
    let c = turn_cos(angle);
    let s = turn_sin(angle);
    lemma_turn_range(angle);
    lemma_turned(x, c, s, pivot);
    lemma_round_quot(turned_x(x, pivot, c, s), TURN_SCALE as int);
    lemma_round_quot(turned_y(x, pivot, c, s), TURN_SCALE as int);
}

/// The midpoint of a segment whose ends can turn is taken by a turn of the
/// ends to within four raw units of where the turn takes it when nothing is
/// rounded, and stays in range.
pub proof fn lemma_midpoint_follows(start: Vector, end: Vector, angle: int, pivot: Vector)
    requires
        can_turn(start, pivot),
        can_turn(end, pivot),
        taxicab(Vector { x: end.x - start.x, y: end.y - start.y }) < LIMIT,
    ensures
        follows(
            midpoint(start.rotated(angle, pivot), end.rotated(angle, pivot)),
            midpoint(start, end),
            pivot,
            turn_cos(angle),
            turn_sin(angle),
            8,
        ),
        midpoint(start.rotated(angle, pivot), end.rotated(angle, pivot)).in_range(),
{
    let c = turn_cos(angle);
    let s = turn_sin(angle);
    lemma_turn_range(angle);
    lemma_turned_follows(start, angle, pivot);
    lemma_turned_follows(end, angle, pivot);
    let start2 = start.rotated(angle, pivot);
    let end2 = end.rotated(angle, pivot);
    let m = midpoint(start, end);
    let m2 = midpoint(start2, end2);
    lemma_turned(start, c, s, pivot);
    lemma_turned(end, c, s, pivot);
    lemma_turn_of_difference(
        Vector { x: end.x - pivot.x, y: end.y - pivot.y },
        Vector { x: start.x - pivot.x, y: start.y - pivot.y },
        c,
        s,
    );
    lemma_turn_offset_bound(Vector { x: end.x - start.x, y: end.y - start.y }, c, s);
    let rx = 2 * (m.x - start.x) - (end.x - start.x);
    let ry = 2 * (m.y - start.y) - (end.y - start.y);
    assert(-1 <= rx <= 0 && -1 <= ry <= 0);
    let rx2 = 2 * (m2.x - start2.x) - (end2.x - start2.x);
    let ry2 = 2 * (m2.y - start2.y) - (end2.y - start2.y);
    assert(-1 <= rx2 <= 0 && -1 <= ry2 <= 0);
    lemma_half_turned(start.x - pivot.x, start.y - pivot.y, end.x - pivot.x, end.y - pivot.y, rx, ry, c, s);
    let t = 1_000_000_000_000int;
    let kx = rx * c - ry * s;
    let ky = rx * s + ry * c;
    assert(-2 * t <= kx <= 2 * t && -2 * t <= ky <= 2 * t) by (nonlinear_arith)
        requires
            kx == rx * c - ry * s,
            ky == rx * s + ry * c,
            -1 <= rx <= 0,
            -1 <= ry <= 0,
            -t <= c <= t,
            -t <= s <= t,
    ;
    let us = turned_x(start, pivot, c, s);
    let ue = turned_x(end, pivot, c, s);
    let um = turned_x(m, pivot, c, s);
    let vs = turned_y(start, pivot, c, s);
    let ve = turned_y(end, pivot, c, s);
    let vm = turned_y(m, pivot, c, s);
    assert(2 * um == us + ue + kx);
    assert(2 * vm == vs + ve + ky);
    assert(2 * (t * (m2.x - pivot.x)) == t * (start2.x - pivot.x) + t * (end2.x - pivot.x) + t
        * rx2);
    assert(2 * (t * (m2.y - pivot.y)) == t * (start2.y - pivot.y) + t * (end2.y - pivot.y) + t
        * ry2);
}

/// Twice the turned offset of the midpoint of two offsets is the sum of the
/// turned offsets and the turned remainder of the halving.
pub proof fn lemma_half_turned(
    sx: int,
    sy: int,
    ex: int,
    ey: int,
    rx: int,
    ry: int,
    c: int,
    s: int,
)
    ensures
        ({
            let mx = (sx + ex + rx) / 2;
            let my = (sy + ey + ry) / 2;
            &&& (sx + ex + rx) % 2 == 0 && (sy + ey + ry) % 2 == 0 ==> 2 * (mx * c - my * s) == (sx
                * c - sy * s) + (ex * c - ey * s) + (rx * c - ry * s)
            &&& (sx + ex + rx) % 2 == 0 && (sy + ey + ry) % 2 == 0 ==> 2 * (mx * s + my * c) == (sx
                * s + sy * c) + (ex * s + ey * c) + (rx * s + ry * c)
        }),
{
    let mx = (sx + ex + rx) / 2;
    let my = (sy + ey + ry) / 2;
    if (sx + ex + rx) % 2 == 0 && (sy + ey + ry) % 2 == 0 {
        let ax = sx + ex + rx;
        let ay = sy + ey + ry;
        assert(2 * mx == ax && 2 * my == ay);
        assert(2 * (mx * c) == ax * c) by (nonlinear_arith)
            requires
                2 * mx == ax,
        ;
        assert(2 * (my * s) == ay * s) by (nonlinear_arith)
            requires
                2 * my == ay,
        ;
        assert(2 * (mx * s) == ax * s) by (nonlinear_arith)
            requires
                2 * mx == ax,
        ;
        assert(2 * (my * c) == ay * c) by (nonlinear_arith)
            requires
                2 * my == ay,
        ;
        assert(ax * c == sx * c + ex * c + rx * c) by (nonlinear_arith)
            requires
                ax == sx + ex + rx,
        ;
        assert(ax * s == sx * s + ex * s + rx * s) by (nonlinear_arith)
            requires
                ax == sx + ex + rx,
        ;
        assert(ay * c == sy * c + ey * c + ry * c) by (nonlinear_arith)
            requires
                ay == sy + ey + ry,
        ;
        assert(ay * s == sy * s + ey * s + ry * s) by (nonlinear_arith)
            requires
                ay == sy + ey + ry,
        ;
    }
}

/// The centre of mass of a body that turns well is taken by a turn of the
/// body to within four raw units of where the turn takes it when nothing is
/// rounded, and stays in range.
pub proof fn lemma_com_follows(b: BodyView, angle: int, pivot: Vector)
    requires
        turns_well(b, pivot),
    ensures
        follows(
            b.rotate(angle, pivot).com(),
            b.com(),
            pivot,
            turn_cos(angle),
            turn_sin(angle),
            8,
        ),
        b.rotate(angle, pivot).com().in_range(),
        b.rotate(angle, pivot).mass == b.mass,
        b.rotate(angle, pivot).childless() == b.childless(),
{
    match b.shape {
        ShapeView::Circle { center, .. } => {
            lemma_turned_follows(center, angle, pivot);
        },
        ShapeView::Group { objects, com } => {
            lemma_turned_follows(com, angle, pivot);
        },
        ShapeView::Line { start, end, .. } => {
            lemma_midpoint_follows(start, end, angle, pivot);
        },
    }
}

/// The moment `moment` of bodies of the mass `mass`, taken about `p`.
pub open spec fn about(moment: int, mass: int, p: int) -> int {
    moment - p * mass
}

/// A body more adds its mass times its offset to the moment about `p`.
pub proof fn lemma_about_grows(moment: int, mass: int, p: int, m: int, x: int)
    ensures
        about(moment + m * x, mass + m, p) == about(moment, mass, p) + m * (x - p),
{
    assert(p * (mass + m) == p * mass + p * m) by (nonlinear_arith);
    assert(m * (x - p) == m * x - p * m) by (nonlinear_arith);
}

/// A sum of two terms, turned and compared with its rounded image, is the
/// sum of the two terms so treated.
pub proof fn lemma_turned_sum(
    t: int,
    c: int,
    s: int,
    a0: int,
    b0: int,
    d0: int,
    m: int,
    ya: int,
    xb: int,
    xd: int,
)
    ensures
        t * (a0 + m * ya) - (c * (b0 + m * xb) - s * (d0 + m * xd)) == (t * a0 - (c * b0 - s * d0))
            + m * (t * ya - (xb * c - xd * s)),
        t * (a0 + m * ya) - (s * (b0 + m * xb) + c * (d0 + m * xd)) == (t * a0 - (s * b0 + c * d0))
            + m * (t * ya - (xb * s + xd * c)),
{
    let mya = m * ya;
    let mxb = m * xb;
    let mxd = m * xd;
    assert(t * (a0 + mya) == t * a0 + t * mya) by (nonlinear_arith);
    assert(c * (b0 + mxb) == c * b0 + c * mxb) by (nonlinear_arith);
    assert(s * (d0 + mxd) == s * d0 + s * mxd) by (nonlinear_arith);
    assert(s * (b0 + mxb) == s * b0 + s * mxb) by (nonlinear_arith);
    assert(c * (d0 + mxd) == c * d0 + c * mxd) by (nonlinear_arith);
    assert(t * mya == m * (t * ya)) by (nonlinear_arith)
        requires
            mya == m * ya,
    ;
    assert(c * mxb == m * (xb * c)) by (nonlinear_arith)
        requires
            mxb == m * xb,
    ;
    assert(s * mxd == m * (xd * s)) by (nonlinear_arith)
        requires
            mxd == m * xd,
    ;
    assert(s * mxb == m * (xb * s)) by (nonlinear_arith)
        requires
            mxb == m * xb,
    ;
    assert(c * mxd == m * (xd * c)) by (nonlinear_arith)
        requires
            mxd == m * xd,
    ;
    let p1 = t * ya;
    let p2 = xb * c;
    let p3 = xd * s;
    let p4 = xb * s;
    let p5 = xd * c;
    assert(m * (p1 - (p2 - p3)) == m * p1 - (m * p2 - m * p3)) by (nonlinear_arith);
    assert(m * (p1 - (p4 + p5)) == m * p1 - (m * p4 + m * p5)) by (nonlinear_arith);
}

/// How far the moments of turned bodies about the pivot are from the turned
/// moments of the bodies, in raw times fine units: first component.
pub open spec fn moment_gap_x(
    before: Seq<BodyView>,
    after: Seq<BodyView>,
    pivot: Vector,
    c: int,
    s: int,
    n: int,
) -> int {
    let e = exact_mass(before, n);
    TURN_SCALE * about(moment_x(after, n), e, pivot.x) - (c * about(
        moment_x(before, n),
        e,
        pivot.x,
    ) - s * about(moment_y(before, n), e, pivot.y))
}

/// As `moment_gap_x`: second component.
pub open spec fn moment_gap_y(
    before: Seq<BodyView>,
    after: Seq<BodyView>,
    pivot: Vector,
    c: int,
    s: int,
    n: int,
) -> int {
    let e = exact_mass(before, n);
    TURN_SCALE * about(moment_y(after, n), e, pivot.y) - (s * about(
        moment_x(before, n),
        e,
        pivot.x,
    ) + c * about(moment_y(before, n), e, pivot.y))
}

/// The moments of bodies with masses from zero on, each turned to within
/// four raw units of where the turn takes its centre of mass when nothing is
/// rounded, are within four raw units times the sum of the masses of the
/// turned moments of the bodies.
pub proof fn lemma_moment_turned(
    before: Seq<BodyView>,
    after: Seq<BodyView>,
    pivot: Vector,
    c: int,
    s: int,
    n: int,
)
    requires
        0 <= n <= before.len(),
        before.len() == after.len(),
        n <= MANY,
        all_in_range(before),
        all_in_range(after),
        forall|i: int|
            0 <= i < before.len() ==> {
                &&& 0 <= (#[trigger] before[i]).mass
                &&& after[i].mass == before[i].mass
                &&& follows(after[i].com(), before[i].com(), pivot, c, s, 8)
            },
    ensures
        exact_mass(after, n) == exact_mass(before, n),
        0 <= exact_mass(before, n),
        -8 * (TURN_SCALE * exact_mass(before, n)) <= 2 * moment_gap_x(
            before,
            after,
            pivot,
            c,
            s,
            n,
        ) <= 8 * (TURN_SCALE * exact_mass(before, n)),
        -8 * (TURN_SCALE * exact_mass(before, n)) <= 2 * moment_gap_y(
            before,
            after,
            pivot,
            c,
            s,
            n,
        ) <= 8 * (TURN_SCALE * exact_mass(before, n)),
    decreases n,
{
    if n > 0 {
        lemma_moment_turned(before, after, pivot, c, s, n - 1);
        lemma_moment_bound(before, n);
        lemma_moment_bound(after, n);
        let m = before[n - 1].mass;
        let x = before[n - 1].com();
        let y = after[n - 1].com();
        assert(follows(y, x, pivot, c, s, 8));
        let t = 1_000_000_000_000int;
        let e0 = exact_mass(before, n - 1);
        let e1 = exact_mass(before, n);
        lemma_about_grows(moment_x(before, n - 1), e0, pivot.x, m, x.x);
        lemma_about_grows(moment_y(before, n - 1), e0, pivot.y, m, x.y);
        lemma_about_grows(moment_x(after, n - 1), e0, pivot.x, m, y.x);
        lemma_about_grows(moment_y(after, n - 1), e0, pivot.y, m, y.y);
        let gx = t * (y.x - pivot.x) - turned_x(x, pivot, c, s);
        let gy = t * (y.y - pivot.y) - turned_y(x, pivot, c, s);
        lemma_turned_sum(
            t,
            c,
            s,
            about(moment_x(after, n - 1), e0, pivot.x),
            about(moment_x(before, n - 1), e0, pivot.x),
            about(moment_y(before, n - 1), e0, pivot.y),
            m,
            y.x - pivot.x,
            x.x - pivot.x,
            x.y - pivot.y,
        );
        lemma_turned_sum(
            t,
            c,
            s,
            about(moment_y(after, n - 1), e0, pivot.y),
            about(moment_x(before, n - 1), e0, pivot.x),
            about(moment_y(before, n - 1), e0, pivot.y),
            m,
            y.y - pivot.y,
            x.x - pivot.x,
            x.y - pivot.y,
        );
        assert(moment_gap_x(before, after, pivot, c, s, n) == moment_gap_x(
            before,
            after,
            pivot,
            c,
            s,
            n - 1,
        ) + m * gx);
        assert(moment_gap_y(before, after, pivot, c, s, n) == moment_gap_y(
            before,
            after,
            pivot,
            c,
            s,
            n - 1,
        ) + m * gy);
        assert(-8 * (t * m) <= 2 * (m * gx) <= 8 * (t * m) && -8 * (t * m) <= 2 * (m * gy) <= 8
            * (t * m)) by (nonlinear_arith)
            requires
                m >= 0,
                -8 * t <= 2 * gx <= 8 * t,
                -8 * t <= 2 * gy <= 8 * t,
        ;
        assert(t * e1 == t * e0 + t * m) by (nonlinear_arith)
            requires
                e1 == e0 + m,
        ;
        assert(TURN_SCALE * exact_mass(before, n) == t * e1);
        assert(TURN_SCALE * exact_mass(before, n - 1) == t * e0);
    } else {
        assert(pivot.x * 0 == 0 && pivot.y * 0 == 0);
        assert(about(0, 0, pivot.x) == 0 && about(0, 0, pivot.y) == 0);
        assert(c * 0 == 0 && s * 0 == 0 && TURN_SCALE * 0 == 0);
        assert(moment_gap_x(before, after, pivot, c, s, 0) == 0);
        assert(moment_gap_y(before, after, pivot, c, s, 0) == 0);
    }
}

/// One component of the centre of a turned group against the mean of its
/// turned children.  `gap` is how far the moment of the turned children about
/// the pivot is from the turned moment of the children; `rest_x` and `rest_y`
/// are what the division by the mass left of the moments before the turn;
/// `centre_gap` is how far the turned centre is from where the turn takes
/// the centre when nothing is rounded.
pub proof fn lemma_mean_near(
    t: int,
    mass: int,
    c: int,
    s: int,
    rest_x: int,
    rest_y: int,
    gap: int,
    centre_gap: int,
    spread: int,
    moment: int,
    mean: int,
    centre: int,
)
    requires
        t > 0,
        mass > 0,
        -t <= c <= t,
        -t <= s <= t,
        0 <= rest_x < mass,
        0 <= rest_y < mass,
        -8 * (t * mass) <= 2 * gap <= 8 * (t * mass),
        -t <= 2 * centre_gap <= t,
        spread == c * rest_x - s * rest_y || spread == s * rest_x + c * rest_y,
        mass * mean <= moment < mass * mean + mass,
        t * moment == gap + spread + mass * (t * centre - centre_gap),
    ensures
        -7 <= mean - centre <= 7,
{
    let tm = t * mass;
    assert(-(2 * tm) <= spread <= 2 * tm) by (nonlinear_arith)
        requires
            spread == c * rest_x - s * rest_y || spread == s * rest_x + c * rest_y,
            -t <= c <= t,
            -t <= s <= t,
            0 <= rest_x < mass,
            0 <= rest_y < mass,
            tm == t * mass,
    ;
    let mg = mass * centre_gap;
    assert(-tm <= 2 * mg <= tm) by (nonlinear_arith)
        requires
            mg == mass * centre_gap,
            -t <= 2 * centre_gap <= t,
            mass > 0,
            tm == t * mass,
    ;
    let z = mean - centre;
    assert(mass * (t * centre - centre_gap) == tm * centre - mg) by (nonlinear_arith)
        requires
            tm == t * mass,
            mg == mass * centre_gap,
    ;
    assert(t * (mass * mean) == tm * mean) by (nonlinear_arith)
        requires
            tm == t * mass,
    ;
    assert(t * (mass * mean) <= t * moment < t * (mass * mean) + tm) by (nonlinear_arith)
        requires
            mass * mean <= moment < mass * mean + mass,
            t > 0,
            tm == t * mass,
    ;
    assert(tm * mean - tm * centre == tm * z) by (nonlinear_arith)
        requires
            z == mean - centre,
    ;
    assert(-7 <= z <= 7) by (nonlinear_arith)
        requires
            -15 * tm <= 2 * (tm * z) <= 15 * tm,
            tm > 0,
    ;
}

/// A centred group whose children have masses from zero on is, after a
/// turn, centred on its children to within seven raw units in each
/// component, provided that its points can turn and it has no more than
/// `MANY` children.
pub proof fn lemma_rotated_centred(g: BodyView, angle: int, pivot: Vector)
    requires
        centred(g),
        all_in_range(g.children()),
        g.children().len() <= MANY,
        can_turn(g.com(), pivot),
        forall|i: int|
            0 <= i < g.children().len() ==> 0 <= (#[trigger] g.children()[i]).mass && turns_well(
                g.children()[i],
                pivot,
            ),
    ensures
        g.rotate(angle, pivot).shape is Group,
        g.rotate(angle, pivot).mass == exact_mass(
            g.rotate(angle, pivot).children(),
            g.rotate(angle, pivot).children().len() as int,
        ),
        near(
            g.rotate(angle, pivot).com(),
            Vector {
                x: moment_x(g.rotate(angle, pivot).children(), g.children().len() as int) / g.mass,
                y: moment_y(g.rotate(angle, pivot).children(), g.children().len() as int) / g.mass,
            },
            7,
        ),
        near(
            g.rotate(angle, pivot).com(),
            weighted_mean(g.rotate(angle, pivot).children(), g.rotate(angle, pivot).mass),
            7,
        ),
{
    let c = turn_cos(angle);
    let s = turn_sin(angle);
    lemma_turn_range(angle);
    let before = g.children();
    let turned = g.rotate(angle, pivot);
    let after = turned.children();
    let n = before.len() as int;
    assert(after.len() == n);
    assert forall|i: int| 0 <= i < n implies {
        &&& after[i].mass == (#[trigger] before[i]).mass
        &&& follows(after[i].com(), before[i].com(), pivot, c, s, 8)
        &&& -LIMIT <= after[i].mass <= LIMIT
        &&& after[i].com().in_range()
        &&& after[i].childless() ==> after[i].mass == 0
    } by {
        assert(after[i] == before[i].rotate(angle, pivot));
        lemma_com_follows(before[i], angle, pivot);
    }
    assert(all_in_range(after));
    lemma_moment_turned(before, after, pivot, c, s, n);
    lemma_moment_bound(before, n);
    lemma_moment_bound(after, n);
    let mass = g.mass;
    let com = g.com();
    let com2 = turned.com();
    assert(com2 == com.rotated(angle, pivot));
    lemma_turned_follows(com, angle, pivot);
    let t = 1_000_000_000_000int;
    let mx = moment_x(before, n);
    let my = moment_y(before, n);
    let rest_x = mx - mass * com.x;
    let rest_y = my - mass * com.y;
    assert(0 <= rest_x < mass && 0 <= rest_y < mass) by {
        vstd::arithmetic::div_mod::lemma_fundamental_div_mod(mx, mass);
        vstd::arithmetic::div_mod::lemma_mod_bound(mx, mass);
        vstd::arithmetic::div_mod::lemma_fundamental_div_mod(my, mass);
        vstd::arithmetic::div_mod::lemma_mod_bound(my, mass);
    }
    let dx = com.x - pivot.x;
    let dy = com.y - pivot.y;
    let ax = about(mx, mass, pivot.x);
    let ay = about(my, mass, pivot.y);
    assert(ax == mass * dx + rest_x && ay == mass * dy + rest_y) by (nonlinear_arith)
        requires
            ax == mx - pivot.x * mass,
            ay == my - pivot.y * mass,
            rest_x == mx - mass * com.x,
            rest_y == my - mass * com.y,
            dx == com.x - pivot.x,
            dy == com.y - pivot.y,
    ;
    let ux = dx * c - dy * s;
    let uy = dx * s + dy * c;
    assert(c * ax - s * ay == mass * ux + (c * rest_x - s * rest_y)) by {
        lemma_spread(mass, c, s, dx, dy, rest_x, rest_y);
    }
    assert(s * ax + c * ay == mass * uy + (s * rest_x + c * rest_y)) by {
        lemma_spread(mass, c, s, dx, dy, rest_x, rest_y);
    }
    let mx2 = moment_x(after, n);
    let my2 = moment_y(after, n);
    let gap_x = moment_gap_x(before, after, pivot, c, s, n);
    let gap_y = moment_gap_y(before, after, pivot, c, s, n);
    let cg_x = t * (com2.x - pivot.x) - ux;
    let cg_y = t * (com2.y - pivot.y) - uy;
    let qx = mx2 / mass;
    let qy = my2 / mass;
    assert(mass * qx <= mx2 < mass * qx + mass && mass * qy <= my2 < mass * qy + mass) by {
        vstd::arithmetic::div_mod::lemma_fundamental_div_mod(mx2, mass);
        vstd::arithmetic::div_mod::lemma_mod_bound(mx2, mass);
        vstd::arithmetic::div_mod::lemma_fundamental_div_mod(my2, mass);
        vstd::arithmetic::div_mod::lemma_mod_bound(my2, mass);
    }
    // Moments and means are taken relative to the pivot.
    let zx = qx - pivot.x;
    let zy = qy - pivot.y;
    let wx = com2.x - pivot.x;
    let wy = com2.y - pivot.y;
    let rel_x = mx2 - pivot.x * mass;
    let rel_y = my2 - pivot.y * mass;
    assert(mass * zx <= rel_x < mass * zx + mass && mass * zy <= rel_y < mass * zy + mass)
        by (nonlinear_arith)
        requires
            mass * qx <= mx2 < mass * qx + mass,
            mass * qy <= my2 < mass * qy + mass,
            zx == qx - pivot.x,
            zy == qy - pivot.y,
            rel_x == mx2 - pivot.x * mass,
            rel_y == my2 - pivot.y * mass,
    ;
    assert(t * rel_x == gap_x + (c * rest_x - s * rest_y) + mass * (t * wx - cg_x)) by {
        assert(mass * (t * wx - cg_x) == mass * ux) by (nonlinear_arith)
            requires
                cg_x == t * wx - ux,
        ;
    }
    assert(t * rel_y == gap_y + (s * rest_x + c * rest_y) + mass * (t * wy - cg_y)) by {
        assert(mass * (t * wy - cg_y) == mass * uy) by (nonlinear_arith)
            requires
                cg_y == t * wy - uy,
        ;
    }
    lemma_mean_near(t, mass, c, s, rest_x, rest_y, gap_x, cg_x, c * rest_x - s * rest_y, rel_x, zx, wx);
    lemma_mean_near(t, mass, c, s, rest_x, rest_y, gap_y, cg_y, s * rest_x + c * rest_y, rel_y, zy, wy);
    assert(turned.mass == mass);
    assert(com2.in_range());
}

/// The turned moment of a sum about the pivot is the mass times the turned
/// centre plus the turned rest of the division.
pub proof fn lemma_spread(
    mass: int,
    c: int,
    s: int,
    dx: int,
    dy: int,
    rest_x: int,
    rest_y: int,
)
    ensures
        c * (mass * dx + rest_x) - s * (mass * dy + rest_y) == mass * (dx * c - dy * s) + (c
            * rest_x - s * rest_y),
        s * (mass * dx + rest_x) + c * (mass * dy + rest_y) == mass * (dx * s + dy * c) + (s
            * rest_x + c * rest_y),
{
    let a = mass * dx;
    let b = mass * dy;
    assert(c * (a + rest_x) == c * a + c * rest_x) by (nonlinear_arith);
    assert(s * (b + rest_y) == s * b + s * rest_y) by (nonlinear_arith);
    assert(s * (a + rest_x) == s * a + s * rest_x) by (nonlinear_arith);
    assert(c * (b + rest_y) == c * b + c * rest_y) by (nonlinear_arith);
    assert(c * a == mass * (dx * c)) by (nonlinear_arith)
        requires
            a == mass * dx,
    ;
    assert(s * b == mass * (dy * s)) by (nonlinear_arith)
        requires
            b == mass * dy,
    ;
    assert(s * a == mass * (dx * s)) by (nonlinear_arith)
        requires
            a == mass * dx,
    ;
    assert(c * b == mass * (dy * c)) by (nonlinear_arith)
        requires
            b == mass * dy,
    ;
    let p = dx * c;
    let q = dy * s;
    let r = dx * s;
    let w = dy * c;
    assert(mass * (p - q) == mass * p - mass * q) by (nonlinear_arith);
    assert(mass * (r + w) == mass * r + mass * w) by (nonlinear_arith);
}

/// A centred group whose children have masses from zero on is, after a
/// tick, centred on its children to within seven raw units in each
/// component, and its mass is still the sum of the masses of its children;
/// provided that it has room for the move of the tick, that its points can
/// then turn about its joint, and that it has no more than `MANY` children.
pub proof fn lemma_advanced_near_centred(b: BodyView, gravity: int, timestep: int)
    requires
        centred(b),
        all_in_range(b.children()),
        b.children().len() <= MANY,
        forall|i: int| 0 <= i < b.children().len() ==> 0 <= (#[trigger] b.children()[i]).mass,
        shape_has_room(b, slowed(b, gravity, timestep).scaled(timestep)),
        ({
            let moved = shifted(b, slowed(b, gravity, timestep).scaled(timestep));
            &&& can_turn(moved.com(), moved.pivot.position)
            &&& forall|i: int|
                0 <= i < moved.children().len() ==> turns_well(
                    #[trigger] moved.children()[i],
                    moved.pivot.position,
                )
        }),
    ensures
        advanced(b, gravity, timestep).shape is Group,
        advanced(b, gravity, timestep).mass == exact_mass(
            advanced(b, gravity, timestep).children(),
            advanced(b, gravity, timestep).children().len() as int,
        ),
        near(
            advanced(b, gravity, timestep).com(),
            weighted_mean(
                advanced(b, gravity, timestep).children(),
                advanced(b, gravity, timestep).mass,
            ),
            7,
        ),
{
    let slow = BodyView { velocity: slowed(b, gravity, timestep), ..b };
    let d = slow.velocity.scaled(timestep);
    assert(shape_has_room(slow, d));
    assert(centred(slow));
    lemma_shifted_centred(slow, d);
    lemma_move_ignores_velocity(b, slow.velocity, d);
    let moved = shifted(slow, d);
    let plain = shifted(b, d);
    assert(moved == (BodyView { velocity: slow.velocity, ..plain }));
    lemma_shifted_children(b, d);
    let children = b.children();
    let after = plain.children();
    assert forall|i: int| 0 <= i < after.len() implies {
        &&& -LIMIT <= (#[trigger] after[i]).mass <= LIMIT
        &&& after[i].com().in_range()
        &&& after[i].childless() ==> after[i].mass == 0
        &&& 0 <= after[i].mass
    } by {
        lemma_shifted_shape(children[i], d);
        if !children[i].childless() {
            lemma_com_has_room(children[i], d);
        }
    }
    let angle = raw_mul(slow.ang_velocity, timestep);
    let pivot = moved.pivot.position;
    lemma_rotated_centred(moved, angle, pivot);
}

} // verus!
