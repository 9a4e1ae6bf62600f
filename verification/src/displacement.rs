//! Moving bodies without turning them.
//!
//! A body that is moved stays what it is as long as none of its coordinates
//! would leave the range of a scalar: moving two bodies by the same vector
//! does not change whether they overlap, and moving a body twice is moving
//! it once to where the second move ends.

use vstd::prelude::*;
use crate::collision::any_collides_leaf;
use crate::collision::any_pair_collides;
use crate::collision::circle_hits_circle;
use crate::collision::circle_hits_line;
use crate::collision::line_hits_line;
use crate::collision::collides;
use crate::collision::collides_leaf;
use crate::collision::leaf_collides;
use crate::model::BodyView;
use crate::model::ShapeView;
use crate::scalar::LIMIT;
use crate::vec2d::JointView;
use crate::vec2d::Vector;

verus! {

/// The body moved by `d`.
pub open spec fn shifted(b: BodyView, d: Vector) -> BodyView {
    b.set_com(b.com().plus(d))
}

/// Setting the centre of mass of a group without children changes nothing.
pub proof fn lemma_childless_stays(b: BodyView, p: Vector)
    requires
        b.childless(),
    ensures
        b.set_com(p) == b,
{
}

/// The point `p` is within the range of a scalar, and still so when moved by `d`.
pub open spec fn has_room(p: Vector, d: Vector) -> bool {
    &&& p.in_range()
    &&& -LIMIT <= p.x + d.x <= LIMIT
    &&& -LIMIT <= p.y + d.y <= LIMIT
}

/// The centre of a circle, the ends of a segment, the centre of mass of a
/// group and the same of its children are within the range of a scalar, and
/// still so when moved by `d`, which is itself within that range.  A group
/// without children does not move and needs no room.
pub open spec fn shape_has_room(b: BodyView, d: Vector) -> bool
    decreases b,
{
    &&& d.in_range()
    &&& match b.shape {
        ShapeView::Circle { center, .. } => has_room(center, d),
        ShapeView::Line { start, end, .. } => has_room(start, d) && has_room(end, d),
        ShapeView::Group { objects, com } => objects.len() == 0 || (has_room(com, d) && forall|
            i: int,
        |
            0 <= i < objects.len() ==> shape_has_room(#[trigger] objects[i], d)),
    }
}

/// The shape with every point moved by `d`, exactly; that of a group without
/// children as it is.
pub open spec fn moved_shape(b: BodyView, d: Vector) -> ShapeView
    decreases b,
{
    match b.shape {
        ShapeView::Circle { center, radius, color } => ShapeView::Circle {
            center: moved(center, d),
            radius,
            color,
        },
        ShapeView::Line { start, end, color } => ShapeView::Line {
            start: moved(start, d),
            end: moved(end, d),
            color,
        },
        ShapeView::Group { objects, com } => if objects.len() == 0 {
            b.shape
        } else {
            ShapeView::Group {
                objects: Seq::new(
                    objects.len(),
                    |i: int|
                        if 0 <= i < objects.len() {
                            shifted(objects[i], d)
                        } else {
                            b
                        },
                ),
                com: moved(com, d),
            }
        },
    }
}

/// The centre of mass of a body in range is in range.  Moving the body to
/// where its centre of mass would be, moved by `d`, moves it by `d`.
pub proof fn lemma_com_has_room(b: BodyView, d: Vector)
    requires
        shape_has_room(b, d),
        !b.childless(),
    ensures
        has_room(b.com(), d),
        b.com().plus(d) == moved(b.com(), d),
        b.com().plus(d).minus(b.com()) == d,
{
}

/// A body that has room to move by `d` has, moved, every point of its shape
/// moved by `d`, exactly.
pub proof fn lemma_shifted_shape(b: BodyView, d: Vector)
    requires
        shape_has_room(b, d),
    ensures
        shifted(b, d).shape == moved_shape(b, d),
        shifted(b, d).com() == if b.childless() {
            b.com()
        } else {
            moved(b.com(), d)
        },
    decreases b,
{
    if !b.childless() {
        lemma_com_has_room(b, d);
        match b.shape {
            ShapeView::Group { objects, com } => {
                assert(shifted(b, d).children() =~= moved_shape(b, d)->Group_objects);
            },
            _ => {},
        }
    }
}

/// The point `p` moved by `d`, exactly.
pub open spec fn moved(p: Vector, d: Vector) -> Vector {
    Vector { x: p.x + d.x, y: p.y + d.y }
}

/// The difference of two points does not change when both are moved by the
/// same vector.
pub proof fn lemma_difference_moved(p: Vector, q: Vector, d: Vector)
    ensures
        moved(p, d).minus(moved(q, d)) == p.minus(q),
{
}

/// Two circles that are moved by the same vector overlap if and only if they did.
pub proof fn lemma_circles_moved(c1: Vector, r1: int, c2: Vector, r2: int, d: Vector)
    ensures
        circle_hits_circle(moved(c1, d), r1, moved(c2, d), r2) == circle_hits_circle(
            c1,
            r1,
            c2,
            r2,
        ),
{
    lemma_difference_moved(c1, c2, d);
}

/// A circle and a segment that are moved by the same vector overlap if and
/// only if they did.
pub proof fn lemma_circle_line_moved(
    center: Vector,
    radius: int,
    start: Vector,
    end: Vector,
    d: Vector,
)
    ensures
        circle_hits_line(moved(center, d), radius, moved(start, d), moved(end, d))
            == circle_hits_line(center, radius, start, end),
{
    lemma_difference_moved(end, start, d);
    lemma_difference_moved(center, start, d);
    lemma_difference_moved(end, center, d);
    lemma_difference_moved(start, center, d);
}

/// Two segments that are moved by the same vector overlap if and only if they did.
pub proof fn lemma_lines_moved(s1: Vector, e1: Vector, s2: Vector, e2: Vector, d: Vector)
    ensures
        line_hits_line(moved(s1, d), moved(e1, d), moved(s2, d), moved(e2, d)) == line_hits_line(
            s1,
            e1,
            s2,
            e2,
        ),
{
    lemma_difference_moved(e1, s1, d);
    lemma_difference_moved(e2, s2, d);
    lemma_difference_moved(s2, s1, d);
}

/// Two circles or segments that are moved by the same vector overlap if and
/// only if they did.
pub proof fn lemma_leaf_collides_shifted(a: BodyView, b: BodyView, d: Vector)
    requires
        shape_has_room(a, d),
        shape_has_room(b, d),
        !(a.shape is Group),
        !(b.shape is Group),
    ensures
        leaf_collides(shifted(a, d), shifted(b, d)) == leaf_collides(a, b),
{
    lemma_shifted_shape(a, d);
    lemma_shifted_shape(b, d);
    match (a.shape, b.shape) {
        (
            ShapeView::Circle { center: c1, radius: r1, .. },
            ShapeView::Circle { center: c2, radius: r2, .. },
        ) => {
            lemma_circles_moved(c1, r1, c2, r2, d);
        },
        (ShapeView::Circle { center, radius, .. }, ShapeView::Line { start, end, .. }) => {
            lemma_circle_line_moved(center, radius, start, end, d);
        },
        (ShapeView::Line { start, end, .. }, ShapeView::Circle { center, radius, .. }) => {
            lemma_circle_line_moved(center, radius, start, end, d);
        },
        (
            ShapeView::Line { start: s1, end: e1, .. },
            ShapeView::Line { start: s2, end: e2, .. },
        ) => {
            lemma_lines_moved(s1, e1, s2, e2, d);
        },
        _ => {},
    }
}

/// Each body moved by `d`.
pub open spec fn shifted_all(objects: Seq<BodyView>, d: Vector) -> Seq<BodyView> {
    Seq::new(objects.len(), |i: int| shifted(objects[i], d))
}

/// The children of a moved group are the children of the group, moved.
pub proof fn lemma_shifted_children(b: BodyView, d: Vector)
    requires
        shape_has_room(b, d),
        b.shape is Group,
    ensures
        shifted(b, d).shape is Group,
        shifted(b, d).children() == shifted_all(b.children(), d),
{
    lemma_shifted_shape(b, d);
    assert(shifted(b, d).children() =~= shifted_all(b.children(), d));
}

/// Bodies and a circle or segment that are moved by the same vector: one of
/// the bodies overlaps it if and only if one did.
pub proof fn lemma_any_collides_leaf_shifted(
    objects: Seq<BodyView>,
    leaf: BodyView,
    d: Vector,
    k: int,
)
    requires
        forall|i: int| 0 <= i < objects.len() ==> shape_has_room(#[trigger] objects[i], d),
        shape_has_room(leaf, d),
        !(leaf.shape is Group),
    ensures
        any_collides_leaf(shifted_all(objects, d), shifted(leaf, d), k) == any_collides_leaf(
            objects,
            leaf,
            k,
        ),
    decreases objects, objects.len() - k,
{
    if 0 <= k < objects.len() {
        lemma_collides_leaf_shifted(objects[k], leaf, d);
        lemma_any_collides_leaf_shifted(objects, leaf, d, k + 1);
    }
}

/// A body and a circle or segment that are moved by the same vector overlap
/// if and only if they did.
pub proof fn lemma_collides_leaf_shifted(b: BodyView, leaf: BodyView, d: Vector)
    requires
        shape_has_room(b, d),
        shape_has_room(leaf, d),
        !(leaf.shape is Group),
    ensures
        collides_leaf(shifted(b, d), shifted(leaf, d)) == collides_leaf(b, leaf),
    decreases b, 0int,
{
    lemma_shifted_shape(b, d);
    lemma_shifted_shape(leaf, d);
    match b.shape {
        ShapeView::Group { objects, .. } => {
            lemma_shifted_children(b, d);
            lemma_any_collides_leaf_shifted(objects, leaf, d, 0);
        },
        _ => {
            lemma_leaf_collides_shifted(b, leaf, d);
        },
    }
}

/// Two rows of bodies that are moved by the same vector: a body of the one
/// overlaps a body of the other if and only if one did.
pub proof fn lemma_any_pair_collides_shifted(
    xs: Seq<BodyView>,
    ys: Seq<BodyView>,
    d: Vector,
    i: int,
    j: int,
)
    requires
        forall|k: int| 0 <= k < xs.len() ==> shape_has_room(#[trigger] xs[k], d),
        forall|k: int| 0 <= k < ys.len() ==> shape_has_room(#[trigger] ys[k], d),
    ensures
        any_pair_collides(shifted_all(xs, d), shifted_all(ys, d), i, j) == any_pair_collides(
            xs,
            ys,
            i,
            j,
        ),
    decreases xs, xs.len() - i, ys.len() - j,
{
    if 0 <= i < xs.len() {
        if 0 <= j < ys.len() {
            lemma_collides_shifted(xs[i], ys[j], d);
            lemma_any_pair_collides_shifted(xs, ys, d, i, j + 1);
        } else {
            lemma_any_pair_collides_shifted(xs, ys, d, i + 1, 0);
        }
    }
}

/// Two bodies that are moved by the same vector overlap if and only if they
/// did, provided that both have room for the move.
pub proof fn lemma_collides_shifted(a: BodyView, b: BodyView, d: Vector)
    requires
        shape_has_room(a, d),
        shape_has_room(b, d),
    ensures
        collides(shifted(a, d), shifted(b, d)) == collides(a, b),
    decreases a, 0int, 0int,
{
    lemma_shifted_shape(a, d);
    lemma_shifted_shape(b, d);
    match (a.shape, b.shape) {
        (ShapeView::Group { objects: xs, .. }, ShapeView::Group { objects: ys, .. }) => {
            lemma_shifted_children(a, d);
            lemma_shifted_children(b, d);
            lemma_any_pair_collides_shifted(xs, ys, d, 0, 0);
        },
        (ShapeView::Group { .. }, _) => {
            lemma_collides_leaf_shifted(a, b, d);
        },
        (_, ShapeView::Group { .. }) => {
            lemma_collides_leaf_shifted(b, a, d);
        },
        _ => {
            lemma_leaf_collides_shifted(a, b, d);
        },
    }
}

/// The shape of the body has room to move by `d`, and so have its anchors,
/// its joint if dynamic, and all of this in its children.  A group without
/// children does not move and needs no room.
pub open spec fn has_room_for(b: BodyView, d: Vector) -> bool
    decreases b,
{
    &&& d.in_range()
    &&& b.childless() || {
        &&& forall|id: usize| b.anchors.contains_key(id) ==> has_room(#[trigger] b.anchors[id], d)
        &&& b.pivot.is_dynamic ==> has_room(b.pivot.position, d)
        &&& match b.shape {
            ShapeView::Circle { center, .. } => has_room(center, d),
            ShapeView::Line { start, end, .. } => has_room(start, d) && has_room(end, d),
            ShapeView::Group { objects, com } => has_room(com, d) && forall|i: int|
                0 <= i < objects.len() ==> has_room_for(#[trigger] objects[i], d),
        }
    }
}

/// The body with every point moved by `d`, exactly: its shape, its anchors,
/// its joint if dynamic, and its children.  A group without children stays
/// as it is.
pub open spec fn exactly_moved(b: BodyView, d: Vector) -> BodyView
    decreases b,
{
    if b.childless() {
        b
    } else {
        BodyView {
            shape: match b.shape {
                ShapeView::Circle { center, radius, color } => ShapeView::Circle {
                    center: moved(center, d),
                    radius,
                    color,
                },
                ShapeView::Line { start, end, color } => ShapeView::Line {
                    start: moved(start, d),
                    end: moved(end, d),
                    color,
                },
                ShapeView::Group { objects, com } => ShapeView::Group {
                    objects: Seq::new(
                        objects.len(),
                        |i: int|
                            if 0 <= i < objects.len() {
                                exactly_moved(objects[i], d)
                            } else {
                                b
                            },
                    ),
                    com: moved(com, d),
                },
            },
            anchors: Map::new(
                |id: usize| b.anchors.contains_key(id),
                |id: usize| moved(b.anchors[id], d),
            ),
            pivot: if b.pivot.is_dynamic {
                JointView { is_dynamic: true, position: moved(b.pivot.position, d) }
            } else {
                b.pivot
            },
            ..b
        }
    }
}

/// Room for everything is room for the shape.
pub proof fn lemma_room_for_shape(b: BodyView, d: Vector)
    requires
        has_room_for(b, d),
    ensures
        shape_has_room(b, d),
    decreases b,
{
    match b.shape {
        ShapeView::Group { objects, com } => {
            assert forall|i: int| 0 <= i < objects.len() implies shape_has_room(
                #[trigger] objects[i],
                d,
            ) by {
                lemma_room_for_shape(objects[i], d);
            }
        },
        _ => {},
    }
}

/// A body that has room to move by `d` is, moved, the body with every point
/// moved by `d`, exactly.
pub proof fn lemma_shifted_exactly(b: BodyView, d: Vector)
    requires
        has_room_for(b, d),
    ensures
        shifted(b, d) == exactly_moved(b, d),
    decreases b,
{
    if !b.childless() {
        lemma_room_for_shape(b, d);
        lemma_com_has_room(b, d);
        assert(shifted(b, d).anchors =~= exactly_moved(b, d).anchors);
        match b.shape {
            ShapeView::Group { objects, com } => {
                assert forall|i: int| 0 <= i < objects.len() implies shifted(objects[i], d)
                    == exactly_moved(objects[i], d) by {
                    lemma_shifted_exactly(objects[i], d);
                }
                assert(shifted(b, d).children() =~= exactly_moved(b, d).children());
            },
            _ => {},
        }
    }
}

/// Moving every point by `d1` and then by `d2` is moving it by their sum.
pub proof fn lemma_moved_twice(b: BodyView, d1: Vector, d2: Vector)
    ensures
        exactly_moved(exactly_moved(b, d1), d2) == exactly_moved(b, moved(d1, d2)),
    decreases b,
{
    let once = exactly_moved(b, d1);
    assert(exactly_moved(once, d2).anchors =~= exactly_moved(b, moved(d1, d2)).anchors);
    match b.shape {
        ShapeView::Group { objects, com } => {
            assert forall|i: int| 0 <= i < objects.len() implies exactly_moved(
                exactly_moved(objects[i], d1),
                d2,
            ) == exactly_moved(objects[i], moved(d1, d2)) by {
                lemma_moved_twice(objects[i], d1, d2);
            }
            assert(exactly_moved(once, d2).children() =~= exactly_moved(
                b,
                moved(d1, d2),
            ).children());
        },
        _ => {},
    }
}

/// A body that has room to move by `d1` and by the sum of `d1` and `d2` has,
/// moved by `d1`, room to move by `d2`.
pub proof fn lemma_room_after_move(b: BodyView, d1: Vector, d2: Vector)
    requires
        has_room_for(b, d1),
        has_room_for(b, moved(d1, d2)),
        d2.in_range(),
    ensures
        has_room_for(exactly_moved(b, d1), d2),
    decreases b,
{
    if !b.childless() {
        let once = exactly_moved(b, d1);
        assert forall|id: usize| once.anchors.contains_key(id) implies has_room(
            #[trigger] once.anchors[id],
            d2,
        ) by {
            assert(has_room(b.anchors[id], d1));
            assert(has_room(b.anchors[id], moved(d1, d2)));
        }
        match b.shape {
            ShapeView::Group { objects, com } => {
                let moved_objects = once.shape->Group_objects;
                assert(moved_objects.len() == objects.len());
                assert forall|i: int| 0 <= i < moved_objects.len() implies has_room_for(
                    #[trigger] moved_objects[i],
                    d2,
                ) by {
                    assert(has_room_for(objects[i], d1));
                    assert(has_room_for(objects[i], moved(d1, d2)));
                    lemma_room_after_move(objects[i], d1, d2);
                    assert(moved_objects[i] == exactly_moved(objects[i], d1));
                }
            },
            _ => {},
        }
    }
}

/// Moving a body by `d1` and then by `d2` is moving it by their sum, provided
/// that it has room for the first move and for the sum.
pub proof fn lemma_shifted_twice(b: BodyView, d1: Vector, d2: Vector)
    requires
        has_room_for(b, d1),
        has_room_for(b, moved(d1, d2)),
        d2.in_range(),
    ensures
        shifted(shifted(b, d1), d2) == shifted(b, moved(d1, d2)),
{
    lemma_shifted_exactly(b, d1);
    lemma_room_after_move(b, d1, d2);
    lemma_shifted_exactly(exactly_moved(b, d1), d2);
    lemma_moved_twice(b, d1, d2);
    lemma_shifted_exactly(b, moved(d1, d2));
}

/// Setting the centre of mass to `p` and then to `q` is setting it to `q`,
/// provided that the body has room for both moves and `q - p` is within the
/// range of a scalar.
pub proof fn lemma_set_com_twice(b: BodyView, p: Vector, q: Vector)
    requires
        p.in_range(),
        q.in_range(),
        has_room_for(b, p.minus(b.com())),
        has_room_for(b, q.minus(b.com())),
        -LIMIT <= p.x - b.com().x <= LIMIT,
        -LIMIT <= p.y - b.com().y <= LIMIT,
        -LIMIT <= q.x - b.com().x <= LIMIT,
        -LIMIT <= q.y - b.com().y <= LIMIT,
        -LIMIT <= q.x - p.x <= LIMIT,
        -LIMIT <= q.y - p.y <= LIMIT,
    ensures
        b.set_com(p).set_com(q) == b.set_com(q),
{
    if !b.childless() {
        let d1 = p.minus(b.com());
        let d2 = q.minus(p);
        lemma_room_for_shape(b, d1);
        lemma_com_has_room(b, d1);
        assert(b.com().plus(d1) == p);
        assert(b.com().plus(moved(d1, d2)) == q);
        assert(moved(d1, d2) == q.minus(b.com()));
        lemma_shifted_twice(b, d1, d2);
        assert(shifted(b, d1).com() == p) by {
            lemma_shifted_exactly(b, d1);
            lemma_com_moved(b, d1);
        }
    }
}

/// The centre of mass of a body with every point moved by `d` is the centre
/// of mass, moved by `d`, if the body has room for the move.
pub proof fn lemma_com_moved(b: BodyView, d: Vector)
    requires
        has_room_for(b, d),
        !b.childless(),
    ensures
        exactly_moved(b, d).com() == moved(b.com(), d),
{
}

/// The difference of the ends of a segment, and of any two anchors of a body,
/// is the same after the body is moved, if it has room for the move.
pub proof fn lemma_shifted_keeps_differences(b: BodyView, d: Vector, id1: usize, id2: usize)
    requires
        has_room_for(b, d),
        b.anchors.contains_key(id1),
        b.anchors.contains_key(id2),
    ensures
        shifted(b, d).anchors[id1].minus(shifted(b, d).anchors[id2]) == b.anchors[id1].minus(
            b.anchors[id2],
        ),
        b.shape matches ShapeView::Line { start, end, .. } ==> {
            &&& shifted(b, d).shape is Line
            &&& shifted(b, d).shape->Line_end.minus(shifted(b, d).shape->Line_start) == end.minus(
                start,
            )
            &&& shifted(b, d).anchors[id1].minus(shifted(b, d).shape->Line_start)
                == b.anchors[id1].minus(start)
            &&& shifted(b, d).anchors[id1].minus(shifted(b, d).shape->Line_end)
                == b.anchors[id1].minus(end)
        },
        b.shape matches ShapeView::Circle { center, .. } ==> {
            &&& shifted(b, d).shape is Circle
            &&& shifted(b, d).anchors[id1].minus(shifted(b, d).shape->Circle_center)
                == b.anchors[id1].minus(center)
        },
{
    lemma_shifted_exactly(b, d);
    lemma_difference_moved(b.anchors[id1], b.anchors[id2], d);
    match b.shape {
        ShapeView::Line { start, end, .. } => {
            lemma_difference_moved(end, start, d);
            lemma_difference_moved(b.anchors[id1], start, d);
            lemma_difference_moved(b.anchors[id1], end, d);
        },
        ShapeView::Circle { center, .. } => {
            lemma_difference_moved(b.anchors[id1], center, d);
        },
        _ => {},
    }
}

} // verus!
