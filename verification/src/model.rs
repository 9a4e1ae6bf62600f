//! What a body is, as a mathematical value, and what the rigid motions and
//! the rotational dynamics do to it.
//!
//! The shapes that programs hold are in [`crate::shapes`]; the view of each of
//! them is a [`BodyView`], and their contracts are written with the functions
//! of this module.

use vstd::prelude::*;
use crate::anchors::shift_anchors;
use crate::anchors::turn_anchors;
use crate::scalar::quot;
use crate::scalar::raw_add;
use crate::scalar::raw_div;
use crate::scalar::raw_mul;
use crate::scalar::sat;
use crate::scalar::SCALE;
use crate::vec2d::JointView;
use crate::vec2d::Vector;

verus! {

/// Raw value of one half.
pub const HALF: i64 = 500_000;

/// Raw value of twelve.
pub const TWELVE: i64 = 12_000_000;

/// Largest magnitude of a sum of moments.
pub const MOMENT_LIMIT: i128 = 1_000_000_000_000_000_000_000_000_000_000_000_000;

/// A colour: red, green, blue and opacity.
#[derive(Clone, Copy, Debug, PartialEq, Eq)]
pub struct Color {
    pub r: u8,
    pub g: u8,
    pub b: u8,
    pub a: u8,
}

/// The geometry of a body.
pub enum ShapeView {
    Circle { center: Vector, radius: int, color: Color },
    Line { start: Vector, end: Vector, color: Color },
    Group { objects: Seq<BodyView>, com: Vector },
}

/// A body: what every shape has, and its geometry.
pub struct BodyView {
    pub mass: int,
    pub velocity: Vector,
    pub ang_velocity: int,
    pub friction: int,
    pub is_static: bool,
    pub id: usize,
    pub pivot: JointView,
    pub anchors: Map<usize, Vector>,
    pub shape: ShapeView,
}

/// The joint moved by `d` if it is dynamic, else as it was.
pub open spec fn shift_joint(joint: JointView, d: Vector) -> JointView {
    if joint.is_dynamic {
        JointView { is_dynamic: true, position: joint.position.plus(d) }
    } else {
        joint
    }
}

/// The joint turned about `pivot` by `angle` if it is dynamic, else as it was.
pub open spec fn turn_joint(joint: JointView, angle: int, pivot: Vector) -> JointView {
    if joint.is_dynamic {
        JointView { is_dynamic: true, position: joint.position.rotated(angle, pivot) }
    } else {
        joint
    }
}

/// The midpoint of a segment: `start` plus half of `end - start`.
pub open spec fn midpoint(start: Vector, end: Vector) -> Vector {
    start.plus(end.minus(start).scaled(HALF as int))
}

/// The moment of inertia of a disc about its centre: half of `mass * radius^2`.
pub open spec fn disc_inertia(mass: int, radius: int) -> int {
    raw_mul(raw_mul(mass, raw_mul(radius, radius)), HALF as int)
}

/// The moment of inertia of a rod about its midpoint: a twelfth of `mass * length^2`.
pub open spec fn rod_inertia(mass: int, start: Vector, end: Vector) -> int {
    raw_div(raw_mul(mass, end.minus(start).dot(end.minus(start))), TWELVE as int)
}

/// The moment of inertia about `axis` of a body with the moment `i_com` about
/// its centre of mass `com`: `i_com + mass * |axis - com|^2`.
pub open spec fn parallel_axis(i_com: int, mass: int, com: Vector, axis: Vector) -> int {
    raw_add(i_com, raw_mul(mass, axis.minus(com).dot(axis.minus(com))))
}

/// `v` pinned to the range of a sum of moments.
pub open spec fn moment_sat(v: int) -> int {
    if v > MOMENT_LIMIT {
        MOMENT_LIMIT as int
    } else if v < -MOMENT_LIMIT {
        -(MOMENT_LIMIT as int)
    } else {
        v
    }
}

/// The sum over the first `n` bodies of raw mass times raw x of the centre of
/// mass, pinned to `MOMENT_LIMIT` after each term.
pub open spec fn moment_x(objects: Seq<BodyView>, n: int) -> int
    decreases n,
{
    if n <= 0 {
        0
    } else {
        moment_sat(moment_x(objects, n - 1) + objects[n - 1].mass * objects[n - 1].com().x)
    }
}

/// The sum over the first `n` bodies of raw mass times raw y of the centre of
/// mass, pinned to `MOMENT_LIMIT` after each term.
pub open spec fn moment_y(objects: Seq<BodyView>, n: int) -> int
    decreases n,
{
    if n <= 0 {
        0
    } else {
        moment_sat(moment_y(objects, n - 1) + objects[n - 1].mass * objects[n - 1].com().y)
    }
}

/// The mass-weighted mean of the centres of mass of `objects`, for the total
/// mass `mass`: the sum of moments over `mass`, rounded once.
pub open spec fn weighted_mean(objects: Seq<BodyView>, mass: int) -> Vector {
    Vector {
        x: sat(quot(moment_x(objects, objects.len() as int), mass)),
        y: sat(quot(moment_y(objects, objects.len() as int), mass)),
    }
}

/// Each body moved by `d`.
pub open spec fn shift_children(objects: Seq<BodyView>, d: Vector) -> Seq<BodyView> {
    Seq::new(objects.len(), |i: int| objects[i].set_com(objects[i].com().plus(d)))
}

/// Each body turned about `pivot` by `angle`.
pub open spec fn turn_children(objects: Seq<BodyView>, angle: int, pivot: Vector) -> Seq<BodyView> {
    Seq::new(objects.len(), |i: int| objects[i].rotate(angle, pivot))
}

/// The black, opaque colour that new shapes have.
pub open spec fn black() -> Color {
    Color { r: 0, g: 0, b: 0, a: 255 }
}

/// A new circle: at rest, movable, without friction, id or anchors, its joint
/// dynamic at its centre.
pub open spec fn new_circle(mass: int, center: Vector, radius: int) -> BodyView {
    BodyView {
        mass,
        velocity: Vector::zero(),
        ang_velocity: 0,
        friction: 0,
        is_static: false,
        id: 0,
        pivot: JointView { is_dynamic: true, position: center },
        anchors: Map::empty(),
        shape: ShapeView::Circle { center, radius, color: black() },
    }
}

/// A new segment: of mass one, at rest, static, without friction, id or
/// anchors, its joint dynamic at its midpoint.
pub open spec fn new_line(start: Vector, end: Vector) -> BodyView {
    BodyView {
        mass: SCALE as int,
        velocity: Vector::zero(),
        ang_velocity: 0,
        friction: 0,
        is_static: true,
        id: 0,
        pivot: JointView { is_dynamic: true, position: midpoint(start, end) },
        anchors: Map::empty(),
        shape: ShapeView::Line { start, end, color: black() },
    }
}

/// A new group: empty, of mass zero, at rest at the origin, movable, its
/// joint dynamic at the origin.
pub open spec fn new_group() -> BodyView {
    BodyView {
        mass: 0,
        velocity: Vector::zero(),
        ang_velocity: 0,
        friction: 0,
        is_static: false,
        id: 0,
        pivot: JointView { is_dynamic: true, position: Vector::zero() },
        anchors: Map::empty(),
        shape: ShapeView::Group { objects: Seq::empty(), com: Vector::zero() },
    }
}

/// The segments of the polyline through `points`, up to the `k`-th, each of
/// mass `mass`, movable, gathered in a group one after the other.
pub open spec fn polyline(points: Seq<Vector>, mass: int, k: int) -> BodyView
    decreases k,
{
    if k <= 0 {
        new_group()
    } else {
        polyline(points, mass, k - 1).add_child(
            BodyView { mass, is_static: false, ..new_line(points[k - 1], points[k]) },
        )
    }
}

/// The group of the segments between consecutive points, the mass `mass`
/// shared equally among them.  Fewer than two points give an empty group.
pub open spec fn polygon(points: Seq<Vector>, mass: int) -> BodyView {
    polyline(points, raw_div(mass, sat((points.len() - 1) * SCALE)), points.len() - 1)
}

/// The sum over the first `n` children of a group with centre of mass `com`
/// of each child's moment of inertia about `com`.
pub open spec fn children_inertia(objects: Seq<BodyView>, com: Vector, n: int) -> int
    decreases objects, n,
{
    if n <= 0 || n > objects.len() {
        0
    } else {
        raw_add(
            children_inertia(objects, com, n - 1),
            parallel_axis(objects[n - 1].i_com(), objects[n - 1].mass, com, objects[n - 1].com()),
        )
    }
}

impl BodyView {
    /// The centre of mass: a circle's centre, a segment's midpoint, a
    /// group's recorded centre of mass.
    pub open spec fn com(self) -> Vector {
        match self.shape {
            ShapeView::Circle { center, .. } => center,
            ShapeView::Line { start, end, .. } => midpoint(start, end),
            ShapeView::Group { com, .. } => com,
        }
    }

    /// The body moved so that its centre of mass is `p`: its geometry, its
    /// anchors, its joint if dynamic and, for a group, each child move by
    /// `p` minus the centre of mass.  A group without children stays as it is.
    pub open spec fn set_com(self, p: Vector) -> BodyView
        decreases self,
    {
        let d = p.minus(self.com());
        match self.shape {
            ShapeView::Circle { center, radius, color } => BodyView {
                shape: ShapeView::Circle { center: p, radius, color },
                anchors: shift_anchors(self.anchors, d),
                pivot: shift_joint(self.pivot, d),
                ..self
            },
            ShapeView::Line { start, end, color } => BodyView {
                shape: ShapeView::Line { start: start.plus(d), end: end.plus(d), color },
                anchors: shift_anchors(self.anchors, d),
                pivot: shift_joint(self.pivot, d),
                ..self
            },
            ShapeView::Group { objects, com } => if objects.len() == 0 {
                self
            } else {
                BodyView {
                    shape: ShapeView::Group {
                        objects: Seq::new(
                            objects.len(),
                            |i: int|
                                if 0 <= i < objects.len() {
                                    objects[i].set_com(objects[i].com().plus(d))
                                } else {
                                    self
                                },
                        ),
                        com: p,
                    },
                    anchors: shift_anchors(self.anchors, d),
                    pivot: shift_joint(self.pivot, d),
                    ..self
                }
            },
        }
    }

    /// The body turned about `pivot` by the raw angle `angle`: its geometry,
    /// its anchors, its joint if dynamic and, for a group, each child.
    pub open spec fn rotate(self, angle: int, pivot: Vector) -> BodyView
        decreases self,
    {
        let shape = match self.shape {
            ShapeView::Circle { center, radius, color } => ShapeView::Circle {
                center: center.rotated(angle, pivot),
                radius,
                color,
            },
            ShapeView::Line { start, end, color } => ShapeView::Line {
                start: start.rotated(angle, pivot),
                end: end.rotated(angle, pivot),
                color,
            },
            ShapeView::Group { objects, com } => ShapeView::Group {
                objects: Seq::new(
                    objects.len(),
                    |i: int|
                        if 0 <= i < objects.len() {
                            objects[i].rotate(angle, pivot)
                        } else {
                            self
                        },
                ),
                com: com.rotated(angle, pivot),
            },
        };
        BodyView {
            shape,
            anchors: turn_anchors(self.anchors, angle, pivot),
            pivot: turn_joint(self.pivot, angle, pivot),
            ..self
        }
    }

    /// Whether the body is a group without children.
    pub open spec fn childless(self) -> bool {
        self.shape matches ShapeView::Group { objects, .. } && objects.len() == 0
    }

    /// The children of a group; none for a circle or a segment.
    pub open spec fn children(self) -> Seq<BodyView> {
        match self.shape {
            ShapeView::Group { objects, .. } => objects,
            _ => Seq::empty(),
        }
    }

    /// The group with one more child, after the others: the mass grows by the
    /// child's, the centre of mass becomes the mass-weighted mean of the
    /// children's, the child's anchors join the group's (replacing those with
    /// the same id), and a dynamic joint moves to the new centre of mass.
    pub open spec fn add_child(self, child: BodyView) -> BodyView {
        let objects = self.children().push(child);
        let mass = raw_add(self.mass, child.mass);
        let com = weighted_mean(objects, mass);
        BodyView {
            mass,
            anchors: self.anchors.union_prefer_right(child.anchors),
            pivot: if self.pivot.is_dynamic {
                JointView { is_dynamic: true, position: com }
            } else {
                self.pivot
            },
            shape: ShapeView::Group { objects, com },
            ..self
        }
    }

    /// The body with the mass `mass`; a group keeps the mass of its children.
    pub open spec fn set_mass(self, mass: int) -> BodyView {
        if self.shape is Group {
            self
        } else {
            BodyView { mass, ..self }
        }
    }

    /// The moment of inertia about the centre of mass.
    pub open spec fn i_com(self) -> int
        decreases self, 0int,
    {
        match self.shape {
            ShapeView::Circle { radius, .. } => disc_inertia(self.mass, radius),
            ShapeView::Line { start, end, .. } => rod_inertia(self.mass, start, end),
            ShapeView::Group { objects, com } => children_inertia(objects, com, objects.len() as int),
        }
    }

    /// The moment of inertia about `pivot`.
    pub open spec fn i_pivot(self, pivot: Vector) -> int {
        parallel_axis(self.i_com(), self.mass, self.com(), pivot)
    }

    /// The body after the impulse `momentum` at `position`, turning about
    /// `pivot`: the angular velocity grows by the torque `(position - pivot) x
    /// momentum` over the moment of inertia about `pivot`.  Nothing else changes.
    pub open spec fn apply_impulse(self, momentum: Vector, position: Vector, pivot: Vector) -> BodyView {
        BodyView {
            ang_velocity: raw_add(
                self.ang_velocity,
                raw_div(position.minus(pivot).cross(momentum), self.i_pivot(pivot)),
            ),
            ..self
        }
    }
}

} // verus!
