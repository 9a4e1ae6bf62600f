//! The collision matrix: for each pair of shapes, whether they overlap, and
//! the normal and the point of their contact.
//!
//! Two circles overlap when their centres are closer than the sum of their
//! radii.  A circle and a segment overlap when an end of the segment is inside
//! the circle, or the foot of the perpendicular from the centre is inside the
//! circle and strictly between the ends.  Two segments overlap when they cross
//! strictly inside both.  A segment without length overlaps nothing.  A group
//! overlaps what one of its children overlaps; its contact is that of the
//! first child that has one.

use vstd::prelude::*;
use crate::model::BodyView;
use crate::model::ShapeView;
use crate::scalar::lemma_isqrt;
use crate::scalar::lemma_isqrt_below;
use crate::scalar::lemma_isqrt_square;
use crate::scalar::lemma_product_bound;
use crate::scalar::quot;
use crate::scalar::raw_add;
use crate::scalar::raw_div;
use crate::scalar::sat;
use crate::scalar::wide_quot;
use crate::scalar::Scalar;
use crate::scalar::LIMIT;
use crate::shapes::views;
use crate::shapes::Body;
use crate::shapes::Circle;
use crate::shapes::Group;
use crate::shapes::Line;
use crate::vec2d::Vec2D;
use crate::vec2d::Vector;

verus! {

/// A contact: its normal and its point.
pub type ContactView = (Vector, Vector);

/// Whether two circles overlap: the distance of the centres is less than
/// the sum of the radii.
pub open spec fn circle_hits_circle(c1: Vector, r1: int, c2: Vector, r2: int) -> bool {
    c1.minus(c2).norm() < raw_add(r1, r2)
}

/// The contact of two circles: the normal leads from the first centre to the
/// second; the point divides the way between them as the radii.
pub open spec fn circle_circle_contact(c1: Vector, r1: int, c2: Vector, r2: int) -> ContactView {
    (c2.minus(c1), c2.minus(c1).scaled(raw_div(r1, raw_add(r1, r2))).plus(c1))
}

/// Whether a circle and a segment overlap.  A segment without length
/// overlaps nothing.  Else they overlap if an end of the segment is closer to
/// the centre than the radius; or if the perpendicular from the centre on the
/// line of the segment is shorter than the radius, and its foot is closer
/// than the length of the segment to both ends.
pub open spec fn circle_hits_line(center: Vector, radius: int, start: Vector, end: Vector) -> bool {
    let direction = end.minus(start);
    let along = center.minus(start).proj_on(direction);
    &&& start != end
    &&& {
        ||| end.minus(center).norm() < radius
        ||| start.minus(center).norm() < radius
        ||| (center.minus(start).minus(along).norm() < radius && along.minus(direction).norm()
            < direction.norm() && along.norm() < direction.norm())
    }
}

/// The contact of a circle and a segment: the normal is perpendicular to the
/// segment; the point is the foot of the perpendicular from the centre.
pub open spec fn circle_line_contact(center: Vector, start: Vector, end: Vector) -> ContactView {
    (end.minus(start).perp(), center.minus(start).proj_on(end.minus(start)).plus(start))
}

/// The cross product of the directions of two segments, exactly: zero when
/// they are parallel or one of them has no length.
pub open spec fn cross_of_directions(s1: Vector, e1: Vector, s2: Vector, e2: Vector) -> int {
    e2.minus(s2).exact_cross(e1.minus(s1))
}

/// The parameter of the crossing along the first segment, times
/// `cross_of_directions`.
pub open spec fn first_parameter(s1: Vector, s2: Vector, e2: Vector) -> int {
    e2.minus(s2).exact_cross(s2.minus(s1))
}

/// The parameter of the crossing along the second segment, times
/// `cross_of_directions`.
pub open spec fn second_parameter(s1: Vector, e1: Vector, s2: Vector) -> int {
    e1.minus(s1).exact_cross(s2.minus(s1))
}

/// Whether the quotient `n / denom` lies strictly between zero and one.
pub open spec fn strictly_inside(n: int, denom: int) -> bool {
    (denom > 0 && 0 < n < denom) || (denom < 0 && denom < n < 0)
}

/// Whether two segments overlap: they are not parallel, and they cross
/// strictly inside both.
pub open spec fn line_hits_line(s1: Vector, e1: Vector, s2: Vector, e2: Vector) -> bool {
    let denom = cross_of_directions(s1, e1, s2, e2);
    strictly_inside(first_parameter(s1, s2, e2), denom) && strictly_inside(
        second_parameter(s1, e1, s2),
        denom,
    )
}

/// Twice the distance of the quotient `n / denom` from one half, times `|denom|`.
pub open spec fn off_middle(n: int, denom: int) -> int {
    if 2 * n - denom < 0 {
        denom - 2 * n
    } else {
        2 * n - denom
    }
}

/// The point of a segment from `start` along `d` at the parameter `n / denom`.
pub open spec fn point_along(start: Vector, d: Vector, n: int, denom: int) -> Vector {
    start.plus(Vector { x: sat(quot(d.x * n, denom)), y: sat(quot(d.y * n, denom)) })
}

/// The contact of two segments, if they overlap.  The segment that is crossed
/// nearer to its middle gives the normal, perpendicular to it, and the point,
/// found along it; if neither is nearer, the second does.
pub open spec fn line_line_contact(s1: Vector, e1: Vector, s2: Vector, e2: Vector) -> Option<
    ContactView,
> {
    let denom = cross_of_directions(s1, e1, s2, e2);
    let n1 = first_parameter(s1, s2, e2);
    let n2 = second_parameter(s1, e1, s2);
    if !line_hits_line(s1, e1, s2, e2) {
        None
    } else if off_middle(n1, denom) < off_middle(n2, denom) {
        Some((e1.minus(s1).perp(), point_along(s1, e1.minus(s1), n1, denom)))
    } else {
        Some((e2.minus(s2).perp(), point_along(s2, e2.minus(s2), n2, denom)))
    }
}

/// Whether two bodies that are circles or segments overlap.
pub open spec fn leaf_collides(a: BodyView, b: BodyView) -> bool {
    match (a.shape, b.shape) {
        (
            ShapeView::Circle { center: c1, radius: r1, .. },
            ShapeView::Circle { center: c2, radius: r2, .. },
        ) => circle_hits_circle(c1, r1, c2, r2),
        (ShapeView::Circle { center, radius, .. }, ShapeView::Line { start, end, .. }) => circle_hits_line(
            center,
            radius,
            start,
            end,
        ),
        (ShapeView::Line { start, end, .. }, ShapeView::Circle { center, radius, .. }) => circle_hits_line(
            center,
            radius,
            start,
            end,
        ),
        (
            ShapeView::Line { start: s1, end: e1, .. },
            ShapeView::Line { start: s2, end: e2, .. },
        ) => line_hits_line(s1, e1, s2, e2),
        _ => false,
    }
}

/// The contact of two bodies that are circles or segments, if they overlap.
pub open spec fn leaf_contact(a: BodyView, b: BodyView) -> Option<ContactView> {
    match (a.shape, b.shape) {
        (
            ShapeView::Circle { center: c1, radius: r1, .. },
            ShapeView::Circle { center: c2, radius: r2, .. },
        ) => if circle_hits_circle(c1, r1, c2, r2) {
            Some(circle_circle_contact(c1, r1, c2, r2))
        } else {
            None
        },
        (ShapeView::Circle { center, radius, .. }, ShapeView::Line { start, end, .. }) => if circle_hits_line(
            center,
            radius,
            start,
            end,
        ) {
            Some(circle_line_contact(center, start, end))
        } else {
            None
        },
        (ShapeView::Line { start, end, .. }, ShapeView::Circle { center, radius, .. }) => if circle_hits_line(
            center,
            radius,
            start,
            end,
        ) {
            Some(circle_line_contact(center, start, end))
        } else {
            None
        },
        (
            ShapeView::Line { start: s1, end: e1, .. },
            ShapeView::Line { start: s2, end: e2, .. },
        ) => line_line_contact(s1, e1, s2, e2),
        _ => None,
    }
}

/// Whether one of `objects`, from the `k`-th on, overlaps the circle or segment `leaf`.
pub open spec fn any_collides_leaf(objects: Seq<BodyView>, leaf: BodyView, k: int) -> bool
    decreases objects, objects.len() - k,
{
    if 0 <= k < objects.len() {
        collides_leaf(objects[k], leaf) || any_collides_leaf(objects, leaf, k + 1)
    } else {
        false
    }
}

/// Whether the body `b` overlaps the circle or segment `leaf`.
pub open spec fn collides_leaf(b: BodyView, leaf: BodyView) -> bool
    decreases b, 0int,
{
    match b.shape {
        ShapeView::Group { objects, .. } => any_collides_leaf(objects, leaf, 0),
        _ => leaf_collides(b, leaf),
    }
}

/// Whether a body of `xs` overlaps a body of `ys`, among the pairs from
/// `(i, j)` on, row by row.
pub open spec fn any_pair_collides(xs: Seq<BodyView>, ys: Seq<BodyView>, i: int, j: int) -> bool
    decreases xs, xs.len() - i, ys.len() - j,
{
    if 0 <= i < xs.len() {
        if 0 <= j < ys.len() {
            collides(xs[i], ys[j]) || any_pair_collides(xs, ys, i, j + 1)
        } else {
            any_pair_collides(xs, ys, i + 1, 0)
        }
    } else {
        false
    }
}

/// Whether two bodies overlap.
pub open spec fn collides(a: BodyView, b: BodyView) -> bool
    decreases a, 0int, 0int,
{
    match (a.shape, b.shape) {
        (ShapeView::Group { objects: xs, .. }, ShapeView::Group { objects: ys, .. }) => any_pair_collides(
            xs,
            ys,
            0,
            0,
        ),
        (ShapeView::Group { .. }, _) => collides_leaf(a, b),
        (_, ShapeView::Group { .. }) => collides_leaf(b, a),
        _ => leaf_collides(a, b),
    }
}

/// The contact with `leaf` of the first of `objects`, from the `k`-th on, that has one.
pub open spec fn first_contact_leaf(objects: Seq<BodyView>, leaf: BodyView, k: int) -> Option<
    ContactView,
>
    decreases objects, objects.len() - k,
{
    if 0 <= k < objects.len() {
        match contact_leaf(objects[k], leaf) {
            Some(c) => Some(c),
            None => first_contact_leaf(objects, leaf, k + 1),
        }
    } else {
        None
    }
}

/// The contact of the body `b` with the circle or segment `leaf`, if there is one.
pub open spec fn contact_leaf(b: BodyView, leaf: BodyView) -> Option<ContactView>
    decreases b, 0int,
{
    match b.shape {
        ShapeView::Group { objects, .. } => first_contact_leaf(objects, leaf, 0),
        _ => leaf_contact(b, leaf),
    }
}

/// The contact of the first pair of a body of `xs` and a body of `ys` that
/// has one, among the pairs from `(i, j)` on, row by row.
pub open spec fn first_pair_contact(xs: Seq<BodyView>, ys: Seq<BodyView>, i: int, j: int) -> Option<
    ContactView,
>
    decreases xs, xs.len() - i, ys.len() - j,
{
    if 0 <= i < xs.len() {
        if 0 <= j < ys.len() {
            match contact(xs[i], ys[j]) {
                Some(c) => Some(c),
                None => first_pair_contact(xs, ys, i, j + 1),
            }
        } else {
            first_pair_contact(xs, ys, i + 1, 0)
        }
    } else {
        None
    }
}

/// The contact of two bodies, if there is one.  A circle that meets a group
/// reports a contact only if it overlaps the group.
pub open spec fn contact(a: BodyView, b: BodyView) -> Option<ContactView>
    decreases a, 0int, 0int,
{
    match (a.shape, b.shape) {
        (ShapeView::Group { objects: xs, .. }, ShapeView::Group { objects: ys, .. }) => first_pair_contact(
            xs,
            ys,
            0,
            0,
        ),
        (ShapeView::Group { .. }, _) => contact_leaf(a, b),
        (ShapeView::Circle { .. }, ShapeView::Group { .. }) => if collides_leaf(b, a) {
            contact_leaf(b, a)
        } else {
            None
        },
        (_, ShapeView::Group { .. }) => contact_leaf(b, a),
        _ => leaf_contact(a, b),
    }
}

/// For radii with a sum between zero and `LIMIT`, two circles overlap exactly
/// when the square of the distance of their centres is less than the square
/// of that sum.
pub proof fn lemma_circles_by_squares(c1: Vector, r1: int, c2: Vector, r2: int)
    requires
        0 <= r1 + r2 <= LIMIT,
    ensures
        circle_hits_circle(c1, r1, c2, r2) <==> c1.minus(c2).x * c1.minus(c2).x + c1.minus(c2).y
            * c1.minus(c2).y < (r1 + r2) * (r1 + r2),
{
    let d = c1.minus(c2);
    let n = d.x * d.x + d.y * d.y;
    assert(d.x * d.x >= 0) by (nonlinear_arith);
    assert(d.y * d.y >= 0) by (nonlinear_arith);
    lemma_isqrt(n);
    lemma_isqrt_below(n, r1 + r2);
}

/// Two circles whose centres are as far apart as the sum of their radii do
/// not overlap.
pub proof fn lemma_circles_touching(c1: Vector, r1: int, c2: Vector, r2: int)
    requires
        c1.minus(c2).x * c1.minus(c2).x + c1.minus(c2).y * c1.minus(c2).y == (r1 + r2) * (r1
            + r2),
    ensures
        !circle_hits_circle(c1, r1, c2, r2),
{
    let d = c1.minus(c2);
    let n = d.x * d.x + d.y * d.y;
    assert(n >= 0) by (nonlinear_arith)
        requires
            n == (r1 + r2) * (r1 + r2),
    ;
    lemma_isqrt(n);
    if r1 + r2 >= 0 {
        lemma_isqrt_square(r1 + r2);
    }
}

/// A segment without length overlaps no circle and has no contact with one.
pub proof fn lemma_point_segment(center: Vector, radius: int, at: Vector)
    ensures
        !circle_hits_line(center, radius, at, at),
        !line_hits_line(at, at, center, at),
{
    let zero = at.minus(at);
    assert(zero.exact_cross(center.minus(at)) == 0) by (nonlinear_arith)
        requires
            zero.x == 0,
            zero.y == 0,
    ;
    assert(at.minus(center).exact_cross(zero) == 0) by (nonlinear_arith)
        requires
            zero.x == 0,
            zero.y == 0,
    ;
}

/// Parallel segments do not overlap and have no contact, wherever they lie.
pub proof fn lemma_parallel_segments(s1: Vector, e1: Vector, s2: Vector, e2: Vector)
    requires
        cross_of_directions(s1, e1, s2, e2) == 0,
    ensures
        !line_hits_line(s1, e1, s2, e2),
        line_line_contact(s1, e1, s2, e2) is None,
{
}

/// A segment that has a length and an end closer to the centre of a circle
/// than its radius overlaps the circle.
pub proof fn lemma_end_inside_circle(center: Vector, radius: int, start: Vector, end: Vector)
    requires
        start != end,
        radius >= 0,
        end.minus(center).x * end.minus(center).x + end.minus(center).y * end.minus(center).y
            < radius * radius || start.minus(center).x * start.minus(center).x + start.minus(
            center,
        ).y * start.minus(center).y < radius * radius,
    ensures
        circle_hits_line(center, radius, start, end),
{
    let de = end.minus(center);
    let ds = start.minus(center);
    assert(de.x * de.x >= 0 && de.y * de.y >= 0 && ds.x * ds.x >= 0 && ds.y * ds.y >= 0)
        by (nonlinear_arith);
    lemma_isqrt_below(de.x * de.x + de.y * de.y, radius);
    lemma_isqrt_below(ds.x * ds.x + ds.y * ds.y, radius);
    lemma_isqrt(de.x * de.x + de.y * de.y);
    lemma_isqrt(ds.x * ds.x + ds.y * ds.y);
}

/// An end of a segment that is as far from the centre of a circle as its
/// radius is not closer to it than the radius.
pub proof fn lemma_end_on_circle(center: Vector, radius: int, end: Vector)
    requires
        0 <= radius <= LIMIT,
        end.minus(center).x * end.minus(center).x + end.minus(center).y * end.minus(center).y
            == radius * radius,
    ensures
        end.minus(center).norm() == radius,
{
    lemma_isqrt_square(radius);
}

/// Among bodies, one of which overlaps `leaf`, one has a contact with it, and
/// the other way round.
pub proof fn lemma_first_contact_leaf(objects: Seq<BodyView>, leaf: BodyView, k: int)
    ensures
        first_contact_leaf(objects, leaf, k) is Some <==> any_collides_leaf(objects, leaf, k),
    decreases objects, objects.len() - k,
{
    if 0 <= k < objects.len() {
        lemma_contact_leaf(objects[k], leaf);
        lemma_first_contact_leaf(objects, leaf, k + 1);
    }
}

/// A body has a contact with a circle or segment exactly when it overlaps it.
pub proof fn lemma_contact_leaf(b: BodyView, leaf: BodyView)
    ensures
        contact_leaf(b, leaf) is Some <==> collides_leaf(b, leaf),
    decreases b, 0int,
{
    match b.shape {
        ShapeView::Group { objects, .. } => {
            lemma_first_contact_leaf(objects, leaf, 0);
        },
        _ => {},
    }
}

/// Among pairs of bodies, one of which overlaps, one has a contact, and the
/// other way round.
pub proof fn lemma_first_pair_contact(xs: Seq<BodyView>, ys: Seq<BodyView>, i: int, j: int)
    ensures
        first_pair_contact(xs, ys, i, j) is Some <==> any_pair_collides(xs, ys, i, j),
    decreases xs, xs.len() - i, ys.len() - j,
{
    if 0 <= i < xs.len() {
        if 0 <= j < ys.len() {
            lemma_contact(xs[i], ys[j]);
            lemma_first_pair_contact(xs, ys, i, j + 1);
        } else {
            lemma_first_pair_contact(xs, ys, i + 1, 0);
        }
    }
}

/// Two bodies have a contact exactly when they overlap.
pub proof fn lemma_contact(a: BodyView, b: BodyView)
    ensures
        contact(a, b) is Some <==> collides(a, b),
    decreases a, 0int, 0int,
{
    match (a.shape, b.shape) {
        (ShapeView::Group { objects: xs, .. }, ShapeView::Group { objects: ys, .. }) => {
            lemma_first_pair_contact(xs, ys, 0, 0);
        },
        (ShapeView::Group { .. }, _) => {
            lemma_contact_leaf(a, b);
        },
        (_, ShapeView::Group { .. }) => {
            lemma_contact_leaf(b, a);
        },
        _ => {},
    }
}

/// The length of a difference does not depend on which point comes first.
pub proof fn lemma_norm_of_difference(p: Vector, q: Vector)
    ensures
        p.minus(q).norm() == q.minus(p).norm(),
{
    let d = p.minus(q);
    let e = q.minus(p);
    assert(e.x == -d.x && e.y == -d.y);
    assert(e.x * e.x == d.x * d.x) by (nonlinear_arith)
        requires
            e.x == -d.x,
    ;
    assert(e.y * e.y == d.y * d.y) by (nonlinear_arith)
        requires
            e.y == -d.y,
    ;
}

/// Two segments overlap whichever of them comes first.
pub proof fn lemma_lines_symmetric(s1: Vector, e1: Vector, s2: Vector, e2: Vector)
    ensures
        line_hits_line(s1, e1, s2, e2) == line_hits_line(s2, e2, s1, e1),
{
    let d1 = e1.minus(s1);
    let d2 = e2.minus(s2);
    let w = s2.minus(s1);
    let v = s1.minus(s2);
    assert(v.x == -w.x && v.y == -w.y);
    assert(d1.exact_cross(d2) == -d2.exact_cross(d1)) by (nonlinear_arith);
    assert(d1.exact_cross(v) == -d1.exact_cross(w)) by (nonlinear_arith)
        requires
            v.x == -w.x,
            v.y == -w.y,
    ;
    assert(d2.exact_cross(v) == -d2.exact_cross(w)) by (nonlinear_arith)
        requires
            v.x == -w.x,
            v.y == -w.y,
    ;
}

/// Two circles or segments overlap whichever of them comes first.
pub proof fn lemma_leaf_collides_symmetric(a: BodyView, b: BodyView)
    ensures
        leaf_collides(a, b) == leaf_collides(b, a),
{
    match (a.shape, b.shape) {
        (
            ShapeView::Circle { center: c1, radius: r1, .. },
            ShapeView::Circle { center: c2, radius: r2, .. },
        ) => {
            lemma_norm_of_difference(c1, c2);
        },
        (
            ShapeView::Line { start: s1, end: e1, .. },
            ShapeView::Line { start: s2, end: e2, .. },
        ) => {
            lemma_lines_symmetric(s1, e1, s2, e2);
        },
        _ => {},
    }
}

/// Where a body of `xs` overlaps a body of `ys` among the pairs from `(i, j)`
/// on, there is such a pair.
pub proof fn lemma_pair_exists(xs: Seq<BodyView>, ys: Seq<BodyView>, i: int, j: int) -> (found: (
    int,
    int,
))
    requires
        any_pair_collides(xs, ys, i, j),
    ensures
        0 <= found.0 < xs.len(),
        0 <= found.1 < ys.len(),
        collides(xs[found.0], ys[found.1]),
    decreases xs, xs.len() - i, ys.len() - j,
{
    if 0 <= j < ys.len() {
        if collides(xs[i], ys[j]) {
            (i, j)
        } else {
            lemma_pair_exists(xs, ys, i, j + 1)
        }
    } else {
        lemma_pair_exists(xs, ys, i + 1, 0)
    }
}

/// A pair of bodies that overlap is found among the pairs from any earlier
/// pair on.
pub proof fn lemma_pair_found(
    xs: Seq<BodyView>,
    ys: Seq<BodyView>,
    i: int,
    j: int,
    p: int,
    q: int,
)
    requires
        0 <= i,
        0 <= j,
        0 <= p < xs.len(),
        0 <= q < ys.len(),
        collides(xs[p], ys[q]),
        i < p || (i == p && j <= q),
    ensures
        any_pair_collides(xs, ys, i, j),
    decreases xs, xs.len() - i, ys.len() - j,
{
    if 0 <= j < ys.len() {
        if !(i == p && j == q) {
            lemma_pair_found(xs, ys, i, j + 1, p, q);
        }
    } else {
        lemma_pair_found(xs, ys, i + 1, 0, p, q);
    }
}

/// Two bodies overlap whichever of them comes first.
pub proof fn lemma_collides_symmetric(a: BodyView, b: BodyView)
    ensures
        collides(a, b) == collides(b, a),
    decreases a,
{
    match (a.shape, b.shape) {
        (ShapeView::Group { objects: xs, .. }, ShapeView::Group { objects: ys, .. }) => {
            if any_pair_collides(xs, ys, 0, 0) {
                let found = lemma_pair_exists(xs, ys, 0, 0);
                lemma_collides_symmetric(xs[found.0], ys[found.1]);
                lemma_pair_found(ys, xs, 0, 0, found.1, found.0);
            }
            if any_pair_collides(ys, xs, 0, 0) {
                let found = lemma_pair_exists(ys, xs, 0, 0);
                lemma_collides_symmetric(xs[found.1], ys[found.0]);
                lemma_pair_found(xs, ys, 0, 0, found.1, found.0);
            }
        },
        (ShapeView::Group { .. }, _) => {},
        (_, ShapeView::Group { .. }) => {},
        _ => {
            lemma_leaf_collides_symmetric(a, b);
        },
    }
}

/// Whether one of `objects` overlaps a circle or segment depends only on the
/// shape of that circle or segment.
pub proof fn lemma_any_collides_leaf_by_shape(
    objects: Seq<BodyView>,
    leaf: BodyView,
    other: BodyView,
    k: int,
)
    requires
        leaf.shape == other.shape,
    ensures
        any_collides_leaf(objects, leaf, k) == any_collides_leaf(objects, other, k),
    decreases objects, objects.len() - k,
{
    if 0 <= k < objects.len() {
        lemma_collides_leaf_by_shape(objects[k], leaf, other);
        lemma_any_collides_leaf_by_shape(objects, leaf, other, k + 1);
    }
}

/// Whether a body overlaps a circle or segment depends only on the shape of
/// that circle or segment.
pub proof fn lemma_collides_leaf_by_shape(b: BodyView, leaf: BodyView, other: BodyView)
    requires
        leaf.shape == other.shape,
    ensures
        collides_leaf(b, leaf) == collides_leaf(b, other),
    decreases b, 0int,
{
    match b.shape {
        ShapeView::Group { objects, .. } => {
            lemma_any_collides_leaf_by_shape(objects, leaf, other, 0);
        },
        _ => {},
    }
}

/// Whether two bodies overlap depends only on their shapes: not on their
/// masses, their motion, their joints or their anchors.
pub proof fn lemma_collides_by_shape(a: BodyView, b: BodyView, a2: BodyView, b2: BodyView)
    requires
        a.shape == a2.shape,
        b.shape == b2.shape,
    ensures
        collides(a, b) == collides(a2, b2),
{
    match (a.shape, b.shape) {
        (ShapeView::Group { .. }, ShapeView::Group { .. }) => {},
        (ShapeView::Group { .. }, _) => {
            lemma_collides_leaf_by_shape(a, b, b2);
            assert(collides_leaf(a, b2) == collides_leaf(a2, b2));
        },
        (_, ShapeView::Group { .. }) => {
            lemma_collides_leaf_by_shape(b, a, a2);
            assert(collides_leaf(b, a2) == collides_leaf(b2, a2));
        },
        _ => {},
    }
}

/// What a contact that a program holds stands for.
pub open spec fn contact_view(c: Option<(Vec2D, Vec2D)>) -> Option<ContactView> {
    match c {
        Some((normal, point)) => Some((normal@, point@)),
        None => None,
    }
}

/// A circle or a segment, borrowed.
#[derive(Clone, Copy)]
pub enum Leaf<'a> {
    Circle(&'a Circle),
    Line(&'a Line),
}

impl<'a> View for Leaf<'a> {
    type V = BodyView;

    open spec fn view(&self) -> BodyView {
        match self {
            Leaf::Circle(circle) => circle@,
            Leaf::Line(line) => line@,
        }
    }
}

impl Circle {
    /// Whether the circle overlaps another.
    pub fn hits_circle(&self, other: &Circle) -> (hit: bool)
        ensures
            hit == circle_hits_circle(self.center@, self.radius@, other.center@, other.radius@),
    {
        self.center.sub(&other.center).mag().lt(&self.radius.add(&other.radius))
    }

    /// Whether the circle overlaps a segment.
    pub fn hits_line(&self, line: &Line) -> (hit: bool)
        ensures
            hit == circle_hits_line(
                self.center@,
                self.radius@,
                line.start_point@,
                line.end_point@,
            ),
    {
        if line.start_point.x.raw() == line.end_point.x.raw() && line.start_point.y.raw()
            == line.end_point.y.raw() {
            return false;
        }
        let direction: Vec2D = line.end_point.sub(&line.start_point);
        let line_len: Scalar = direction.mag();
        let distance1: Scalar = line.end_point.sub(&self.center).mag();
        let distance2: Scalar = line.start_point.sub(&self.center).mag();
        let along: Vec2D = self.center.sub(&line.start_point).proj_on(&direction);
        let distance3: Scalar = self.center.sub(&line.start_point).sub(&along).mag();
        if distance1.lt(&self.radius) || distance2.lt(&self.radius) {
            return true;
        }
        distance3.lt(&self.radius) && along.sub(&direction).mag().lt(&line_len) && along.mag().lt(
            &line_len,
        )
    }

    /// The contact with another circle, if they overlap.
    pub fn touches_circle(&self, other: &Circle) -> (c: Option<(Vec2D, Vec2D)>)
        ensures
            contact_view(c) == leaf_contact(self@, other@),
    {
        if !self.hits_circle(other) {
            return None;
        }
        let between: Vec2D = other.center.sub(&self.center);
        let share: Scalar = self.radius.div(&self.radius.add(&other.radius));
        Some((between, between.mult(share).add(&self.center)))
    }

    /// The contact with a segment, if they overlap.
    pub fn touches_line(&self, line: &Line) -> (c: Option<(Vec2D, Vec2D)>)
        ensures
            contact_view(c) == leaf_contact(self@, line@),
    {
        if !self.hits_line(line) {
            return None;
        }
        let direction: Vec2D = line.end_point.sub(&line.start_point);
        Some(
            (
                direction.perp(),
                self.center.sub(&line.start_point).proj_on(&direction).add(&line.start_point),
            ),
        )
    }

    /// Whether the circle overlaps the body.
    pub fn has_collided(&self, other: &Body) -> (hit: bool)
        ensures
            hit == collides(self@, other@),
    {
        match other {
            Body::Circle(circle) => self.hits_circle(circle),
            Body::Line(line) => self.hits_line(line),
            Body::Group(group) => any_hits_leaf(&group.objects, Leaf::Circle(self)),
        }
    }

    /// The contact with the body, if there is one.
    pub fn collision_direction(&self, other: &Body) -> (c: Option<(Vec2D, Vec2D)>)
        ensures
            contact_view(c) == contact(self@, other@),
    {
        match other {
            Body::Circle(circle) => self.touches_circle(circle),
            Body::Line(line) => self.touches_line(line),
            Body::Group(group) => {
                if !any_hits_leaf(&group.objects, Leaf::Circle(self)) {
                    return None;
                }
                first_touch_leaf(&group.objects, Leaf::Circle(self))
            },
        }
    }
}

/// The exact cross product of two vectors, in squared raw units.
fn wide_cross(a: &Vec2D, b: &Vec2D) -> (c: i128)
    ensures
        c == a@.exact_cross(b@),
        -2_000_000_000_000_000_000_000_000 <= c <= 2_000_000_000_000_000_000_000_000,
{
    a.x.raw_product(&b.y) - a.y.raw_product(&b.x)
}

/// Whether `n / denom` lies strictly between zero and one.
fn is_strictly_inside(n: i128, denom: i128) -> (inside: bool)
    ensures
        inside == strictly_inside(n as int, denom as int),
{
    (denom > 0 && 0 < n && n < denom) || (denom < 0 && denom < n && n < 0)
}

/// Twice the distance of `n / denom` from one half, times `|denom|`.
fn distance_off_middle(n: i128, denom: i128) -> (d: i128)
    requires
        -2_000_000_000_000_000_000_000_000 <= n <= 2_000_000_000_000_000_000_000_000,
        -2_000_000_000_000_000_000_000_000 <= denom <= 2_000_000_000_000_000_000_000_000,
    ensures
        d == off_middle(n as int, denom as int),
{
    let t: i128 = 2 * n - denom;
    if t < 0 {
        -t
    } else {
        t
    }
}

/// The point from `start` along `d` at the parameter `n / denom`.
fn find_point_along(start: &Vec2D, d: &Vec2D, n: i128, denom: i128) -> (p: Vec2D)
    requires
        -2_000_000_000_000_000_000_000_000 <= n <= 2_000_000_000_000_000_000_000_000,
        -2_000_000_000_000_000_000_000_000 <= denom <= 2_000_000_000_000_000_000_000_000,
    ensures
        p@ == point_along(start@, d@, n as int, denom as int),
{
    let dx: i128 = d.x.raw() as i128;
    let dy: i128 = d.y.raw() as i128;
    proof {
        lemma_product_bound(dx as int, n as int, LIMIT as int, 2_000_000_000_000_000_000_000_000);
        lemma_product_bound(dy as int, n as int, LIMIT as int, 2_000_000_000_000_000_000_000_000);
    }
    let step: Vec2D = Vec2D {
        x: Scalar::from_wide(wide_quot(dx * n, denom)),
        y: Scalar::from_wide(wide_quot(dy * n, denom)),
    };
    start.add(&step)
}

impl Line {
    /// Whether the segment overlaps another.
    pub fn hits_line(&self, line2: &Line) -> (hit: bool)
        ensures
            hit == line_hits_line(
                self.start_point@,
                self.end_point@,
                line2.start_point@,
                line2.end_point@,
            ),
    {
        let line1_displacement: Vec2D = self.end_point.sub(&self.start_point);
        let line2_displacement: Vec2D = line2.end_point.sub(&line2.start_point);
        let between: Vec2D = line2.start_point.sub(&self.start_point);
        let denom: i128 = wide_cross(&line2_displacement, &line1_displacement);
        let n1: i128 = wide_cross(&line2_displacement, &between);
        let n2: i128 = wide_cross(&line1_displacement, &between);
        is_strictly_inside(n1, denom) && is_strictly_inside(n2, denom)
    }

    /// The contact with another segment, if they overlap.
    pub fn touches_line(&self, line2: &Line) -> (c: Option<(Vec2D, Vec2D)>)
        ensures
            contact_view(c) == leaf_contact(self@, line2@),
    {
        let line1_displacement: Vec2D = self.end_point.sub(&self.start_point);
        let line2_displacement: Vec2D = line2.end_point.sub(&line2.start_point);
        let between: Vec2D = line2.start_point.sub(&self.start_point);
        let denom: i128 = wide_cross(&line2_displacement, &line1_displacement);
        let n1: i128 = wide_cross(&line2_displacement, &between);
        let n2: i128 = wide_cross(&line1_displacement, &between);
        if !(is_strictly_inside(n1, denom) && is_strictly_inside(n2, denom)) {
            return None;
        }
        if distance_off_middle(n1, denom) < distance_off_middle(n2, denom) {
            Some(
                (
                    line1_displacement.perp(),
                    find_point_along(&self.start_point, &line1_displacement, n1, denom),
                ),
            )
        } else {
            Some(
                (
                    line2_displacement.perp(),
                    find_point_along(&line2.start_point, &line2_displacement, n2, denom),
                ),
            )
        }
    }

    /// Whether the segment overlaps the body.
    pub fn has_collided(&self, other: &Body) -> (hit: bool)
        ensures
            hit == collides(self@, other@),
    {
        match other {
            Body::Circle(circle) => circle.hits_line(self),
            Body::Line(line) => self.hits_line(line),
            Body::Group(group) => any_hits_leaf(&group.objects, Leaf::Line(self)),
        }
    }

    /// The contact with the body, if there is one.
    pub fn collision_direction(&self, other: &Body) -> (c: Option<(Vec2D, Vec2D)>)
        ensures
            contact_view(c) == contact(self@, other@),
    {
        match other {
            Body::Circle(circle) => circle.touches_line(self),
            Body::Line(line) => self.touches_line(line),
            Body::Group(group) => first_touch_leaf(&group.objects, Leaf::Line(self)),
        }
    }
}

/// Whether two circles or segments overlap.
pub fn leaf_hits(a: Leaf, b: Leaf) -> (hit: bool)
    ensures
        hit == leaf_collides(a@, b@),
{
    match a {
        Leaf::Circle(circle) => match b {
            Leaf::Circle(other) => circle.hits_circle(other),
            Leaf::Line(line) => circle.hits_line(line),
        },
        Leaf::Line(line) => match b {
            Leaf::Circle(circle) => circle.hits_line(line),
            Leaf::Line(other) => line.hits_line(other),
        },
    }
}

/// The contact of two circles or segments, if they overlap.
pub fn leaf_touches(a: Leaf, b: Leaf) -> (c: Option<(Vec2D, Vec2D)>)
    ensures
        contact_view(c) == leaf_contact(a@, b@),
{
    match a {
        Leaf::Circle(circle) => match b {
            Leaf::Circle(other) => circle.touches_circle(other),
            Leaf::Line(line) => circle.touches_line(line),
        },
        Leaf::Line(line) => match b {
            Leaf::Circle(circle) => circle.touches_line(line),
            Leaf::Line(other) => line.touches_line(other),
        },
    }
}

/// Whether the body overlaps the circle or segment `leaf`.
pub fn hits_leaf(body: &Body, leaf: Leaf) -> (hit: bool)
    ensures
        hit == collides_leaf(body@, leaf@),
    decreases body,
{
    match body {
        Body::Circle(circle) => leaf_hits(Leaf::Circle(circle), leaf),
        Body::Line(line) => leaf_hits(Leaf::Line(line), leaf),
        Body::Group(group) => any_hits_leaf(&group.objects, leaf),
    }
}

/// Whether one of the bodies overlaps the circle or segment `leaf`.
pub fn any_hits_leaf(objects: &Vec<Body>, leaf: Leaf) -> (hit: bool)
    ensures
        hit == any_collides_leaf(views(*objects), leaf@, 0),
    decreases objects,
{
    let mut k: usize = 0;
    while k < objects.len()
        invariant
            k <= objects.len(),
            any_collides_leaf(views(*objects), leaf@, 0) == any_collides_leaf(
                views(*objects),
                leaf@,
                k as int,
            ),
        decreases objects.len() - k,
    {
        if hits_leaf(&objects[k], leaf) {
            return true;
        }
        k += 1;
    }
    false
}

/// The contact of the body with the circle or segment `leaf`, if there is one.
pub fn touches_leaf(body: &Body, leaf: Leaf) -> (c: Option<(Vec2D, Vec2D)>)
    ensures
        contact_view(c) == contact_leaf(body@, leaf@),
    decreases body,
{
    match body {
        Body::Circle(circle) => leaf_touches(Leaf::Circle(circle), leaf),
        Body::Line(line) => leaf_touches(Leaf::Line(line), leaf),
        Body::Group(group) => first_touch_leaf(&group.objects, leaf),
    }
}

/// The contact with `leaf` of the first of the bodies that has one.
pub fn first_touch_leaf(objects: &Vec<Body>, leaf: Leaf) -> (c: Option<(Vec2D, Vec2D)>)
    ensures
        contact_view(c) == first_contact_leaf(views(*objects), leaf@, 0),
    decreases objects,
{
    let mut k: usize = 0;
    while k < objects.len()
        invariant
            k <= objects.len(),
            first_contact_leaf(views(*objects), leaf@, 0) == first_contact_leaf(
                views(*objects),
                leaf@,
                k as int,
            ),
        decreases objects.len() - k,
    {
        let found: Option<(Vec2D, Vec2D)> = touches_leaf(&objects[k], leaf);
        if found.is_some() {
            return found;
        }
        k += 1;
    }
    None
}

/// Whether a body of `xs` overlaps a body of `ys`.
pub fn any_pair_hits(xs: &Vec<Body>, ys: &Vec<Body>) -> (hit: bool)
    ensures
        hit == any_pair_collides(views(*xs), views(*ys), 0, 0),
    decreases xs,
{
    let mut i: usize = 0;
    while i < xs.len()
        invariant
            i <= xs.len(),
            any_pair_collides(views(*xs), views(*ys), 0, 0) == any_pair_collides(
                views(*xs),
                views(*ys),
                i as int,
                0,
            ),
        decreases xs.len() - i,
    {
        let mut j: usize = 0;
        while j < ys.len()
            invariant
                i < xs.len(),
                j <= ys.len(),
                any_pair_collides(views(*xs), views(*ys), 0, 0) == any_pair_collides(
                    views(*xs),
                    views(*ys),
                    i as int,
                    j as int,
                ),
            decreases ys.len() - j,
        {
            if xs[i].has_collided(&ys[j]) {
                return true;
            }
            j += 1;
        }
        i += 1;
    }
    false
}

/// The contact of the first pair of a body of `xs` and a body of `ys` that has one.
pub fn first_pair_touch(xs: &Vec<Body>, ys: &Vec<Body>) -> (c: Option<(Vec2D, Vec2D)>)
    ensures
        contact_view(c) == first_pair_contact(views(*xs), views(*ys), 0, 0),
    decreases xs,
{
    let mut i: usize = 0;
    while i < xs.len()
        invariant
            i <= xs.len(),
            first_pair_contact(views(*xs), views(*ys), 0, 0) == first_pair_contact(
                views(*xs),
                views(*ys),
                i as int,
                0,
            ),
        decreases xs.len() - i,
    {
        let mut j: usize = 0;
        while j < ys.len()
            invariant
                i < xs.len(),
                j <= ys.len(),
                first_pair_contact(views(*xs), views(*ys), 0, 0) == first_pair_contact(
                    views(*xs),
                    views(*ys),
                    i as int,
                    j as int,
                ),
            decreases ys.len() - j,
        {
            let found: Option<(Vec2D, Vec2D)> = xs[i].collision_direction(&ys[j]);
            if found.is_some() {
                return found;
            }
            j += 1;
        }
        i += 1;
    }
    None
}

impl Group {
    /// Whether the group overlaps the body.
    pub fn has_collided(&self, other: &Body) -> (hit: bool)
        ensures
            hit == collides(self@, other@),
        decreases self,
    {
        match other {
            Body::Circle(circle) => any_hits_leaf(&self.objects, Leaf::Circle(circle)),
            Body::Line(line) => any_hits_leaf(&self.objects, Leaf::Line(line)),
            Body::Group(group) => any_pair_hits(&self.objects, &group.objects),
        }
    }

    /// The contact with the body, if there is one.
    pub fn collision_direction(&self, other: &Body) -> (c: Option<(Vec2D, Vec2D)>)
        ensures
            contact_view(c) == contact(self@, other@),
        decreases self,
    {
        match other {
            Body::Circle(circle) => first_touch_leaf(&self.objects, Leaf::Circle(circle)),
            Body::Line(line) => first_touch_leaf(&self.objects, Leaf::Line(line)),
            Body::Group(group) => first_pair_touch(&self.objects, &group.objects),
        }
    }
}

impl Body {
    /// Whether the body overlaps another.
    pub fn has_collided(&self, other: &Body) -> (hit: bool)
        ensures
            hit == collides(self@, other@),
        decreases self,
    {
        match self {
            Body::Circle(circle) => circle.has_collided(other),
            Body::Line(line) => line.has_collided(other),
            Body::Group(group) => group.has_collided(other),
        }
    }

    /// The contact with another body, if there is one: its normal and its point.
    pub fn collision_direction(&self, other: &Body) -> (c: Option<(Vec2D, Vec2D)>)
        ensures
            contact_view(c) == contact(self@, other@),
        decreases self,
    {
        match self {
            Body::Circle(circle) => circle.collision_direction(other),
            Body::Line(line) => line.collision_direction(other),
            Body::Group(group) => group.collision_direction(other),
        }
    }
}

} // verus!
