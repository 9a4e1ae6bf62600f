//! The shapes: circles, line segments, and groups of shapes.
//!
//! Each shape views as a [`BodyView`]; what a method does is stated over that
//! view with the functions of [`crate::model`].

use vstd::prelude::*;
use std::collections::HashMap;
use crate::anchors::anchors_view;
use crate::anchors::merge_anchors;
use crate::anchors::rotate_anchors;
use crate::anchors::move_anchors;
use crate::model::children_inertia;
use crate::model::moment_sat;
use crate::model::moment_x;
use crate::model::moment_y;
use crate::model::new_circle;
use crate::model::new_group;
use crate::model::new_line;
use crate::model::polygon;
use crate::model::polyline;
use crate::model::shift_children;
use crate::model::turn_children;
use crate::model::weighted_mean;
use crate::model::BodyView;
use crate::model::Color;
use crate::model::ShapeView;
use crate::model::HALF;
use crate::model::MOMENT_LIMIT;
use crate::model::TWELVE;
use crate::scalar::wide_quot;
use crate::scalar::Scalar;
use crate::scalar::SCALE;
use crate::vec2d::Joint;
use crate::vec2d::Vec2D;
use crate::vec2d::Vector;

verus! {

broadcast use vstd::std_specs::hash::group_hash_axioms;

/// A disc.
#[derive(Debug)]
pub struct Circle {
    pub mass: Scalar,
    pub velocity: Vec2D,
    pub center: Vec2D,
    pub radius: Scalar,
    pub color: Color,
    pub friction: Scalar,
    pub is_static: bool,
    pub id: usize,
    pub pivot: Joint,
    pub anchors: HashMap<usize, Vec2D>,
    pub ang_velocity: Scalar,
}

/// A line segment.
#[derive(Debug)]
pub struct Line {
    pub start_point: Vec2D,
    pub end_point: Vec2D,
    pub mass: Scalar,
    pub velocity: Vec2D,
    pub color: Color,
    pub friction: Scalar,
    pub is_static: bool,
    pub id: usize,
    pub pivot: Joint,
    pub anchors: HashMap<usize, Vec2D>,
    pub ang_velocity: Scalar,
}

/// Shapes that move as one.
#[derive(Debug)]
pub struct Group {
    pub objects: Vec<Body>,
    pub com: Vec2D,
    pub mass: Scalar,
    pub velocity: Vec2D,
    pub friction: Scalar,
    pub is_static: bool,
    pub id: usize,
    pub pivot: Joint,
    pub anchors: HashMap<usize, Vec2D>,
    pub ang_velocity: Scalar,
}

/// Any shape.
#[derive(Debug)]
pub enum Body {
    Circle(Circle),
    Line(Line),
    Group(Group),
}

impl View for Circle {
    type V = BodyView;

    open spec fn view(&self) -> BodyView {
        BodyView {
            mass: self.mass@,
            velocity: self.velocity@,
            ang_velocity: self.ang_velocity@,
            friction: self.friction@,
            is_static: self.is_static,
            id: self.id,
            pivot: self.pivot@,
            anchors: anchors_view(self.anchors),
            shape: ShapeView::Circle {
                center: self.center@,
                radius: self.radius@,
                color: self.color,
            },
        }
    }
}

impl View for Line {
    type V = BodyView;

    open spec fn view(&self) -> BodyView {
        BodyView {
            mass: self.mass@,
            velocity: self.velocity@,
            ang_velocity: self.ang_velocity@,
            friction: self.friction@,
            is_static: self.is_static,
            id: self.id,
            pivot: self.pivot@,
            anchors: anchors_view(self.anchors),
            shape: ShapeView::Line {
                start: self.start_point@,
                end: self.end_point@,
                color: self.color,
            },
        }
    }
}

/// The views of the bodies of a vector, in order.
pub open spec fn views(objects: Vec<Body>) -> Seq<BodyView>
    decreases objects,
{
    Seq::new(
        objects@.len(),
        |i: int|
            if 0 <= i < objects@.len() {
                body_view(objects@[i])
            } else {
                new_group()
            },
    )
}

/// What a group stands for.
pub open spec fn group_view(group: Group) -> BodyView
    decreases group,
{
    BodyView {
        mass: group.mass@,
        velocity: group.velocity@,
        ang_velocity: group.ang_velocity@,
        friction: group.friction@,
        is_static: group.is_static,
        id: group.id,
        pivot: group.pivot@,
        anchors: anchors_view(group.anchors),
        shape: ShapeView::Group { objects: views(group.objects), com: group.com@ },
    }
}

/// What a body stands for.
pub open spec fn body_view(body: Body) -> BodyView
    decreases body,
{
    match body {
        Body::Circle(circle) => circle@,
        Body::Line(line) => line@,
        Body::Group(group) => group_view(group),
    }
}

impl View for Group {
    type V = BodyView;

    open spec fn view(&self) -> BodyView {
        group_view(*self)
    }
}

impl View for Body {
    type V = BodyView;

    open spec fn view(&self) -> BodyView {
        body_view(*self)
    }
}

impl Circle {
    /// A circle of the given mass and radius at `center`.
    pub fn new(mass: Scalar, center: Vec2D, radius: Scalar) -> (circle: Circle)
        ensures
            circle@ == new_circle(mass@, center@, radius@),
    {
        let circle = Circle {
            mass,
            velocity: Vec2D::zero(),
            center,
            radius,
            color: Color { r: 0, g: 0, b: 0, a: 255 },
            friction: Scalar::zero(),
            is_static: false,
            id: 0,
            pivot: Joint::new(true, center),
            anchors: HashMap::new(),
            ang_velocity: Scalar::zero(),
        };
        assert(circle@.anchors =~= Map::empty());
        circle
    }

    /// The centre of mass.
    pub fn get_com(&self) -> (com: Vec2D)
        ensures
            com@ == self@.com(),
    {
        self.center
    }

    /// Moves the circle so that its centre of mass is `com`.
    pub fn set_com(&mut self, com: &Vec2D)
        ensures
            final(self)@ == old(self)@.set_com(com@),
    {
        let displacement: Vec2D = com.sub(&self.center);
        move_anchors(&mut self.anchors, &displacement);
        self.center = *com;
        if self.pivot.is_dynamic {
            self.pivot.position = self.pivot.position.add(&displacement);
        }
    }

    /// Turns the circle about `pivot` by `angle`.
    pub fn rotate(&mut self, angle: Scalar, pivot: Vec2D)
        ensures
            final(self)@ == old(self)@.rotate(angle@, pivot@),
    {
        self.center = self.center.rotated(angle, &pivot);
        if self.pivot.is_dynamic {
            self.pivot.position = self.pivot.position.rotated(angle, &pivot);
        }
        rotate_anchors(&mut self.anchors, angle, &pivot);
    }

    /// The moment of inertia about the centre of mass.
    pub fn get_i_com(&self) -> (i: Scalar)
        ensures
            i@ == self@.i_com(),
    {
        self.mass.mul(&self.radius.mul(&self.radius)).mul(&Scalar::from_raw(HALF))
    }

    /// The mass.
    pub fn get_mass(&self) -> (mass: Scalar)
        ensures
            mass@ == self@.mass,
    {
        self.mass
    }

    /// Sets the mass.
    pub fn set_mass(&mut self, mass: Scalar)
        ensures
            final(self)@ == old(self)@.set_mass(mass@),
    {
        self.mass = mass;
    }

    /// The velocity of the centre of mass.
    pub fn get_velocity(&self) -> (velocity: Vec2D)
        ensures
            velocity@ == self@.velocity,
    {
        self.velocity
    }

    /// Sets the velocity of the centre of mass.
    pub fn set_velocity(&mut self, velocity: &Vec2D)
        ensures
            final(self)@ == (BodyView { velocity: velocity@, ..old(self)@ }),
    {
        self.velocity = *velocity;
    }

    /// The friction coefficient.
    pub fn get_friction(&self) -> (friction_k: Scalar)
        ensures
            friction_k@ == self@.friction,
    {
        self.friction
    }

    /// Sets the friction coefficient.
    pub fn set_friction(&mut self, friction_k: Scalar)
        ensures
            final(self)@ == (BodyView { friction: friction_k@, ..old(self)@ }),
    {
        self.friction = friction_k;
    }

    /// Whether the circle is static.
    pub fn get_static(&self) -> (is_static: bool)
        ensures
            is_static == self@.is_static,
    {
        self.is_static
    }

    /// Makes the circle static or movable.
    pub fn set_static(&mut self, is_static: bool)
        ensures
            final(self)@ == (BodyView { is_static, ..old(self)@ }),
    {
        self.is_static = is_static;
    }

    /// The id; zero while none is assigned.
    pub fn get_id(&self) -> (id: usize)
        ensures
            id == self@.id,
    {
        self.id
    }

    /// Sets the id.
    pub fn set_id(&mut self, id: usize)
        ensures
            final(self)@ == (BodyView { id, ..old(self)@ }),
    {
        self.id = id;
    }

    /// The joint.
    pub fn get_pivot(&self) -> (pivot: Joint)
        ensures
            pivot@ == self@.pivot,
    {
        self.pivot
    }

    /// Sets the joint.
    pub fn set_pivot(&mut self, pivot: Joint)
        ensures
            final(self)@ == (BodyView { pivot: pivot@, ..old(self)@ }),
    {
        self.pivot = pivot;
    }

    /// The position of the anchor `id`, if there is one.
    pub fn get_anchor(&self, id: usize) -> (anchor: Option<&Vec2D>)
        ensures
            match anchor {
                Some(position) => self@.anchors.contains_key(id) && position@ == self@.anchors[id],
                None => !self@.anchors.contains_key(id),
            },
    {
        self.anchors.get(&id)
    }

    /// The anchor table.
    pub fn get_anchors(&self) -> (anchors: &HashMap<usize, Vec2D>)
        ensures
            anchors_view(*anchors) == self@.anchors,
    {
        &self.anchors
    }

    /// Puts the anchor `id` at `position`, whether or not there was one.
    pub fn add_anchor(&mut self, id: usize, position: Vec2D)
        ensures
            final(self)@ == (BodyView {
                anchors: old(self)@.anchors.insert(id, position@),
                ..old(self)@
            }),
    {
        self.anchors.insert(id, position);
        assert(self@.anchors =~= old(self)@.anchors.insert(id, position@));
    }

    /// The angular velocity, in radians a tick.
    pub fn get_ang_velocity(&self) -> (ang_velocity: Scalar)
        ensures
            ang_velocity@ == self@.ang_velocity,
    {
        self.ang_velocity
    }

    /// Sets the angular velocity.
    pub fn set_ang_velocity(&mut self, ang_velocity: Scalar)
        ensures
            final(self)@ == (BodyView { ang_velocity: ang_velocity@, ..old(self)@ }),
    {
        self.ang_velocity = ang_velocity;
    }

    /// Applies the impulse `momentum` at `position`, the circle turning about
    /// `pivot`: only the angular velocity changes.
    pub fn apply_impulse(&mut self, momentum: &Vec2D, position: &Vec2D, pivot: &Vec2D)
        ensures
            final(self)@ == old(self)@.apply_impulse(momentum@, position@, pivot@),
    {
        let r: Vec2D = position.sub(pivot);
        let delta_ang_momentum: Scalar = r.cross(momentum);
        let h: Vec2D = pivot.sub(&self.get_com());
        let i_pivot: Scalar = self.get_i_com().add(&self.mass.mul(&h.dot(&h)));
        self.ang_velocity = self.ang_velocity.add(&delta_ang_momentum.div(&i_pivot));
    }
}

impl Line {
    /// The segment from `start_point` to `end_point`.
    pub fn new(start_point: Vec2D, end_point: Vec2D) -> (line: Line)
        ensures
            line@ == new_line(start_point@, end_point@),
    {
        let com: Vec2D = start_point.add(&end_point.sub(&start_point).mult(Scalar::from_raw(HALF)));
        let line = Line {
            start_point,
            end_point,
            mass: Scalar::one(),
            velocity: Vec2D::zero(),
            color: Color { r: 0, g: 0, b: 0, a: 255 },
            friction: Scalar::zero(),
            is_static: true,
            id: 0,
            pivot: Joint::new(true, com),
            anchors: HashMap::new(),
            ang_velocity: Scalar::zero(),
        };
        assert(line@.anchors =~= Map::empty());
        line
    }

    /// The centre of mass.
    pub fn get_com(&self) -> (com: Vec2D)
        ensures
            com@ == self@.com(),
    {
        self.start_point.add(&self.end_point.sub(&self.start_point).mult(Scalar::from_raw(HALF)))
    }

    /// Moves the segment so that its centre of mass is `com`.
    pub fn set_com(&mut self, com: &Vec2D)
        ensures
            final(self)@ == old(self)@.set_com(com@),
    {
        let displacement: Vec2D = com.sub(&self.get_com());
        move_anchors(&mut self.anchors, &displacement);
        self.start_point = self.start_point.add(&displacement);
        self.end_point = self.end_point.add(&displacement);
        if self.pivot.is_dynamic {
            self.pivot.position = self.pivot.position.add(&displacement);
        }
    }

    /// Turns the segment about `pivot` by `angle`.
    pub fn rotate(&mut self, angle: Scalar, pivot: Vec2D)
        ensures
            final(self)@ == old(self)@.rotate(angle@, pivot@),
    {
        self.start_point = self.start_point.rotated(angle, &pivot);
        self.end_point = self.end_point.rotated(angle, &pivot);
        if self.pivot.is_dynamic {
            self.pivot.position = self.pivot.position.rotated(angle, &pivot);
        }
        rotate_anchors(&mut self.anchors, angle, &pivot);
    }

    /// The moment of inertia about the centre of mass.
    pub fn get_i_com(&self) -> (i: Scalar)
        ensures
            i@ == self@.i_com(),
    {
        let d: Vec2D = self.end_point.sub(&self.start_point);
        self.mass.mul(&d.dot(&d)).div(&Scalar::from_raw(TWELVE))
    }

    /// The mass.
    pub fn get_mass(&self) -> (mass: Scalar)
        ensures
            mass@ == self@.mass,
    {
        self.mass
    }

    /// Sets the mass.
    pub fn set_mass(&mut self, mass: Scalar)
        ensures
            final(self)@ == old(self)@.set_mass(mass@),
    {
        self.mass = mass;
    }

    /// The velocity of the centre of mass.
    pub fn get_velocity(&self) -> (velocity: Vec2D)
        ensures
            velocity@ == self@.velocity,
    {
        self.velocity
    }

    /// Sets the velocity of the centre of mass.
    pub fn set_velocity(&mut self, velocity: &Vec2D)
        ensures
            final(self)@ == (BodyView { velocity: velocity@, ..old(self)@ }),
    {
        self.velocity = *velocity;
    }

    /// The friction coefficient.
    pub fn get_friction(&self) -> (friction_k: Scalar)
        ensures
            friction_k@ == self@.friction,
    {
        self.friction
    }

    /// Sets the friction coefficient.
    pub fn set_friction(&mut self, friction_k: Scalar)
        ensures
            final(self)@ == (BodyView { friction: friction_k@, ..old(self)@ }),
    {
        self.friction = friction_k;
    }

    /// Whether the segment is static.
    pub fn get_static(&self) -> (is_static: bool)
        ensures
            is_static == self@.is_static,
    {
        self.is_static
    }

    /// Makes the segment static or movable.
    pub fn set_static(&mut self, is_static: bool)
        ensures
            final(self)@ == (BodyView { is_static, ..old(self)@ }),
    {
        self.is_static = is_static;
    }

    /// The id; zero while none is assigned.
    pub fn get_id(&self) -> (id: usize)
        ensures
            id == self@.id,
    {
        self.id
    }

    /// Sets the id.
    pub fn set_id(&mut self, id: usize)
        ensures
            final(self)@ == (BodyView { id, ..old(self)@ }),
    {
        self.id = id;
    }

    /// The joint.
    pub fn get_pivot(&self) -> (pivot: Joint)
        ensures
            pivot@ == self@.pivot,
    {
        self.pivot
    }

    /// Sets the joint.
    pub fn set_pivot(&mut self, pivot: Joint)
        ensures
            final(self)@ == (BodyView { pivot: pivot@, ..old(self)@ }),
    {
        self.pivot = pivot;
    }

    /// The position of the anchor `id`, if there is one.
    pub fn get_anchor(&self, id: usize) -> (anchor: Option<&Vec2D>)
        ensures
            match anchor {
                Some(position) => self@.anchors.contains_key(id) && position@ == self@.anchors[id],
                None => !self@.anchors.contains_key(id),
            },
    {
        self.anchors.get(&id)
    }

    /// The anchor table.
    pub fn get_anchors(&self) -> (anchors: &HashMap<usize, Vec2D>)
        ensures
            anchors_view(*anchors) == self@.anchors,
    {
        &self.anchors
    }

    /// Puts the anchor `id` at `position`, whether or not there was one.
    pub fn add_anchor(&mut self, id: usize, position: Vec2D)
        ensures
            final(self)@ == (BodyView {
                anchors: old(self)@.anchors.insert(id, position@),
                ..old(self)@
            }),
    {
        self.anchors.insert(id, position);
        assert(self@.anchors =~= old(self)@.anchors.insert(id, position@));
    }

    /// The angular velocity, in radians a tick.
    pub fn get_ang_velocity(&self) -> (ang_velocity: Scalar)
        ensures
            ang_velocity@ == self@.ang_velocity,
    {
        self.ang_velocity
    }

    /// Sets the angular velocity.
    pub fn set_ang_velocity(&mut self, ang_velocity: Scalar)
        ensures
            final(self)@ == (BodyView { ang_velocity: ang_velocity@, ..old(self)@ }),
    {
        self.ang_velocity = ang_velocity;
    }

    /// Applies the impulse `momentum` at `position`, the segment turning about
    /// `pivot`: only the angular velocity changes.
    pub fn apply_impulse(&mut self, momentum: &Vec2D, position: &Vec2D, pivot: &Vec2D)
        ensures
            final(self)@ == old(self)@.apply_impulse(momentum@, position@, pivot@),
    {
        let r: Vec2D = position.sub(pivot);
        let delta_ang_momentum: Scalar = r.cross(momentum);
        let h: Vec2D = pivot.sub(&self.get_com());
        let i_pivot: Scalar = self.get_i_com().add(&self.mass.mul(&h.dot(&h)));
        self.ang_velocity = self.ang_velocity.add(&delta_ang_momentum.div(&i_pivot));
    }
}

/// Moves each body by `d`.
pub fn move_children(objects: &mut Vec<Body>, d: &Vec2D)
    ensures
        views(*final(objects)) == shift_children(views(*old(objects)), d@),
    decreases *old(objects),
{
    let ghost before: Vec<Body> = *objects;
    let mut i: usize = 0;
    while i < objects.len()
        invariant
            i <= objects.len(),
            objects.len() == before.len(),
            before == *old(objects),
            forall|j: int|
                0 <= j < i ==> body_view(#[trigger] objects@[j]) == body_view(before@[j]).set_com(
                    body_view(before@[j]).com().plus(d@),
                ),
            forall|j: int| i <= j < objects.len() ==> #[trigger] objects@[j] == before@[j],
        decreases objects.len() - i,
    {
        let child: &mut Body = &mut objects[i];
        let target: Vec2D = child.get_com().add(d);
        child.set_com(&target);
        i += 1;
    }
    assert(views(*objects) =~= shift_children(views(before), d@));
}

/// Turns each body about `pivot` by `angle`.
pub fn rotate_children(objects: &mut Vec<Body>, angle: Scalar, pivot: Vec2D)
    ensures
        views(*final(objects)) == turn_children(views(*old(objects)), angle@, pivot@),
    decreases *old(objects),
{
    let ghost before: Vec<Body> = *objects;
    let mut i: usize = 0;
    while i < objects.len()
        invariant
            i <= objects.len(),
            objects.len() == before.len(),
            before == *old(objects),
            forall|j: int|
                0 <= j < i ==> body_view(#[trigger] objects@[j]) == body_view(before@[j]).rotate(
                    angle@,
                    pivot@,
                ),
            forall|j: int| i <= j < objects.len() ==> #[trigger] objects@[j] == before@[j],
        decreases objects.len() - i,
    {
        let child: &mut Body = &mut objects[i];
        child.rotate(angle, pivot);
        i += 1;
    }
    assert(views(*objects) =~= turn_children(views(before), angle@, pivot@));
}

/// The moments of inertia of the bodies about `com`, summed in order.
pub fn inertia_of_children(objects: &Vec<Body>, com: &Vec2D) -> (total: Scalar)
    ensures
        total@ == children_inertia(views(*objects), com@, objects.len() as int),
    decreases *objects,
{
    let mut total: Scalar = Scalar::zero();
    let mut i: usize = 0;
    while i < objects.len()
        invariant
            i <= objects.len(),
            total@ == children_inertia(views(*objects), com@, i as int),
        decreases objects.len() - i,
    {
        let child: &Body = &objects[i];
        let h: Vec2D = child.get_com().sub(com);
        let term: Scalar = child.get_i_com().add(&child.get_mass().mul(&h.dot(&h)));
        total = total.add(&term);
        i += 1;
    }
    total
}

/// The mass-weighted mean of the centres of mass of the bodies, for the
/// total mass `mass`.
pub fn center_of_children(objects: &Vec<Body>, mass: Scalar) -> (com: Vec2D)
    ensures
        com@ == weighted_mean(views(*objects), mass@),
{
    let mut mx: i128 = 0;
    let mut my: i128 = 0;
    let mut i: usize = 0;
    while i < objects.len()
        invariant
            i <= objects.len(),
            mx == moment_x(views(*objects), i as int),
            my == moment_y(views(*objects), i as int),
            -MOMENT_LIMIT <= mx <= MOMENT_LIMIT,
            -MOMENT_LIMIT <= my <= MOMENT_LIMIT,
        decreases objects.len() - i,
    {
        let child: &Body = &objects[i];
        let m: Scalar = child.get_mass();
        let c: Vec2D = child.get_com();
        mx = pin_moment(mx + m.raw_product(&c.x));
        my = pin_moment(my + m.raw_product(&c.y));
        i += 1;
    }
    Vec2D {
        x: Scalar::from_wide(wide_quot(mx, mass.raw() as i128)),
        y: Scalar::from_wide(wide_quot(my, mass.raw() as i128)),
    }
}

/// The raw value of the whole number `n`, as a wide integer.
fn wide_mul_usize(n: usize) -> (v: i128)
    ensures
        v == n * SCALE,
{
    (n as i128) * 1_000_000
}

/// `v` pinned to the range of a sum of moments.
fn pin_moment(v: i128) -> (p: i128)
    ensures
        p == moment_sat(v as int),
{
    if v > MOMENT_LIMIT {
        MOMENT_LIMIT
    } else if v < -MOMENT_LIMIT {
        -MOMENT_LIMIT
    } else {
        v
    }
}

impl Group {
    /// An empty group.
    pub fn new() -> (group: Group)
        ensures
            group@ == new_group(),
    {
        let group = Group {
            objects: Vec::new(),
            com: Vec2D::zero(),
            mass: Scalar::zero(),
            velocity: Vec2D::zero(),
            friction: Scalar::zero(),
            is_static: false,
            id: 0,
            pivot: Joint::new(true, Vec2D::zero()),
            anchors: HashMap::new(),
            ang_velocity: Scalar::zero(),
        };
        assert(group@.anchors =~= Map::empty());
        assert(views(group.objects) =~= Seq::empty());
        group
    }

    /// The centre of mass.
    pub fn get_com(&self) -> (com: Vec2D)
        ensures
            com@ == self@.com(),
    {
        self.com
    }

    /// Moves the group, children and all, so that its centre of mass is `com`.
    /// A group without children stays as it is.
    pub fn set_com(&mut self, com: &Vec2D)
        ensures
            final(self)@ == old(self)@.set_com(com@),
        decreases *old(self),
    {
        if self.objects.len() == 0 {
            return;
        }
        let displacement: Vec2D = com.sub(&self.com);
        move_anchors(&mut self.anchors, &displacement);
        move_children(&mut self.objects, &displacement);
        self.com = *com;
        if self.pivot.is_dynamic {
            self.pivot.position = self.pivot.position.add(&displacement);
        }
        assert(self@.children() =~= old(self)@.set_com(com@).children());
    }

    /// Turns the group, children and all, about `pivot` by `angle`.
    pub fn rotate(&mut self, angle: Scalar, pivot: Vec2D)
        ensures
            final(self)@ == old(self)@.rotate(angle@, pivot@),
        decreases *old(self),
    {
        rotate_children(&mut self.objects, angle, pivot);
        self.com = self.com.rotated(angle, &pivot);
        if self.pivot.is_dynamic {
            self.pivot.position = self.pivot.position.rotated(angle, &pivot);
        }
        rotate_anchors(&mut self.anchors, angle, &pivot);
        assert(self@.children() =~= old(self)@.rotate(angle@, pivot@).children());
    }

    /// The moment of inertia about the centre of mass.
    pub fn get_i_com(&self) -> (i: Scalar)
        ensures
            i@ == self@.i_com(),
        decreases *self,
    {
        inertia_of_children(&self.objects, &self.com)
    }

    /// The mass.
    pub fn get_mass(&self) -> (mass: Scalar)
        ensures
            mass@ == self@.mass,
    {
        self.mass
    }

    /// Does nothing: the mass of a group is that of its children.
    pub fn set_mass(&mut self, mass: Scalar)
        ensures
            final(self)@ == old(self)@.set_mass(mass@),
    {
    }

    /// The velocity of the centre of mass.
    pub fn get_velocity(&self) -> (velocity: Vec2D)
        ensures
            velocity@ == self@.velocity,
    {
        self.velocity
    }

    /// Sets the velocity of the centre of mass.
    pub fn set_velocity(&mut self, velocity: &Vec2D)
        ensures
            final(self)@ == (BodyView { velocity: velocity@, ..old(self)@ }),
    {
        self.velocity = *velocity;
    }

    /// The friction coefficient.
    pub fn get_friction(&self) -> (friction_k: Scalar)
        ensures
            friction_k@ == self@.friction,
    {
        self.friction
    }

    /// Sets the friction coefficient.
    pub fn set_friction(&mut self, friction_k: Scalar)
        ensures
            final(self)@ == (BodyView { friction: friction_k@, ..old(self)@ }),
    {
        self.friction = friction_k;
    }

    /// Whether the group is static.
    pub fn get_static(&self) -> (is_static: bool)
        ensures
            is_static == self@.is_static,
    {
        self.is_static
    }

    /// Makes the group static or movable.
    pub fn set_static(&mut self, is_static: bool)
        ensures
            final(self)@ == (BodyView { is_static, ..old(self)@ }),
    {
        self.is_static = is_static;
    }

    /// The id; zero while none is assigned.
    pub fn get_id(&self) -> (id: usize)
        ensures
            id == self@.id,
    {
        self.id
    }

    /// Sets the id.
    pub fn set_id(&mut self, id: usize)
        ensures
            final(self)@ == (BodyView { id, ..old(self)@ }),
    {
        self.id = id;
    }

    /// The joint.
    pub fn get_pivot(&self) -> (pivot: Joint)
        ensures
            pivot@ == self@.pivot,
    {
        self.pivot
    }

    /// Sets the joint.
    pub fn set_pivot(&mut self, pivot: Joint)
        ensures
            final(self)@ == (BodyView { pivot: pivot@, ..old(self)@ }),
    {
        self.pivot = pivot;
    }

    /// The position of the anchor `id`, if there is one.
    pub fn get_anchor(&self, id: usize) -> (anchor: Option<&Vec2D>)
        ensures
            match anchor {
                Some(position) => self@.anchors.contains_key(id) && position@ == self@.anchors[id],
                None => !self@.anchors.contains_key(id),
            },
    {
        self.anchors.get(&id)
    }

    /// The anchor table.
    pub fn get_anchors(&self) -> (anchors: &HashMap<usize, Vec2D>)
        ensures
            anchors_view(*anchors) == self@.anchors,
    {
        &self.anchors
    }

    /// Puts the anchor `id` at `position`, whether or not there was one.
    pub fn add_anchor(&mut self, id: usize, position: Vec2D)
        ensures
            final(self)@ == (BodyView {
                anchors: old(self)@.anchors.insert(id, position@),
                ..old(self)@
            }),
    {
        self.anchors.insert(id, position);
        assert(self@.anchors =~= old(self)@.anchors.insert(id, position@));
    }

    /// The angular velocity, in radians a tick.
    pub fn get_ang_velocity(&self) -> (ang_velocity: Scalar)
        ensures
            ang_velocity@ == self@.ang_velocity,
    {
        self.ang_velocity
    }

    /// Sets the angular velocity.
    pub fn set_ang_velocity(&mut self, ang_velocity: Scalar)
        ensures
            final(self)@ == (BodyView { ang_velocity: ang_velocity@, ..old(self)@ }),
    {
        self.ang_velocity = ang_velocity;
    }

    /// Applies the impulse `momentum` at `position`, the group turning about
    /// `pivot`: only the angular velocity changes.
    pub fn apply_impulse(&mut self, momentum: &Vec2D, position: &Vec2D, pivot: &Vec2D)
        ensures
            final(self)@ == old(self)@.apply_impulse(momentum@, position@, pivot@),
    {
        let r: Vec2D = position.sub(pivot);
        let delta_ang_momentum: Scalar = r.cross(momentum);
        let h: Vec2D = pivot.sub(&self.get_com());
        let i_pivot: Scalar = self.get_i_com().add(&self.mass.mul(&h.dot(&h)));
        self.ang_velocity = self.ang_velocity.add(&delta_ang_momentum.div(&i_pivot));
    }

    /// Adds a child to the group.
    pub fn add_object(&mut self, object: Body)
        ensures
            final(self)@ == old(self)@.add_child(object@),
    {
        self.mass = self.mass.add(&object.get_mass());
        merge_anchors(&mut self.anchors, object.get_anchors());
        self.objects.push(object);
        assert(views(self.objects) =~= old(self)@.children().push(object@));
        let com: Vec2D = center_of_children(&self.objects, self.mass);
        self.com = com;
        if self.pivot.is_dynamic {
            self.pivot.position = com;
        }
    }

    /// The group of the segments between consecutive points, the mass `mass`
    /// shared equally among them.  Fewer than two points give an empty group.
    pub fn create_polygon(points: Vec<Vec2D>, mass: Scalar) -> (group: Group)
        ensures
            group@ == polygon(points@.map_values(|p: Vec2D| p@), mass@),
    {
        let mut result: Group = Group::new();
        if points.len() < 2 {
            return result;
        }
        let sides: usize = points.len() - 1;
        let count: Scalar = Scalar::from_wide(wide_mul_usize(sides));
        let share: Scalar = mass.div(&count);
        let ghost corners: Seq<Vector> = points@.map_values(|p: Vec2D| p@);
        let mut i: usize = 0;
        while i < sides
            invariant
                i <= sides,
                sides == points.len() - 1,
                corners == points@.map_values(|p: Vec2D| p@),
                result@ == polyline(corners, share@, i as int),
            decreases sides - i,
        {
            let mut line: Line = Line::new(points[i], points[i + 1]);
            line.set_static(false);
            line.set_mass(share);
            result.add_object(Body::Line(line));
            i += 1;
        }
        result
    }
}

impl Body {
    /// The centre of mass.
    pub fn get_com(&self) -> (com: Vec2D)
        ensures
            com@ == self@.com(),
    {
        match self {
            Body::Circle(circle) => circle.get_com(),
            Body::Line(line) => line.get_com(),
            Body::Group(group) => group.get_com(),
        }
    }

    /// Moves the body so that its centre of mass is `com`.  A group without
    /// children stays as it is.
    pub fn set_com(&mut self, com: &Vec2D)
        ensures
            final(self)@ == old(self)@.set_com(com@),
        decreases *old(self),
    {
        match self {
            Body::Circle(circle) => circle.set_com(com),
            Body::Line(line) => line.set_com(com),
            Body::Group(group) => group.set_com(com),
        }
    }

    /// Turns the body about `pivot` by `angle`.
    pub fn rotate(&mut self, angle: Scalar, pivot: Vec2D)
        ensures
            final(self)@ == old(self)@.rotate(angle@, pivot@),
        decreases *old(self),
    {
        match self {
            Body::Circle(circle) => circle.rotate(angle, pivot),
            Body::Line(line) => line.rotate(angle, pivot),
            Body::Group(group) => group.rotate(angle, pivot),
        }
    }

    /// The moment of inertia about the centre of mass.
    pub fn get_i_com(&self) -> (i: Scalar)
        ensures
            i@ == self@.i_com(),
        decreases *self,
    {
        match self {
            Body::Circle(circle) => circle.get_i_com(),
            Body::Line(line) => line.get_i_com(),
            Body::Group(group) => group.get_i_com(),
        }
    }

    /// The mass.
    pub fn get_mass(&self) -> (mass: Scalar)
        ensures
            mass@ == self@.mass,
    {
        match self {
            Body::Circle(circle) => circle.mass,
            Body::Line(line) => line.mass,
            Body::Group(group) => group.mass,
        }
    }

    /// Sets the mass; a group keeps the mass of its children.
    pub fn set_mass(&mut self, mass: Scalar)
        ensures
            final(self)@ == old(self)@.set_mass(mass@),
    {
        match self {
            Body::Circle(circle) => circle.set_mass(mass),
            Body::Line(line) => line.set_mass(mass),
            Body::Group(group) => group.set_mass(mass),
        }
    }

    /// The velocity of the centre of mass.
    pub fn get_velocity(&self) -> (velocity: Vec2D)
        ensures
            velocity@ == self@.velocity,
    {
        match self {
            Body::Circle(circle) => circle.get_velocity(),
            Body::Line(line) => line.get_velocity(),
            Body::Group(group) => group.get_velocity(),
        }
    }

    /// Sets the velocity of the centre of mass.
    pub fn set_velocity(&mut self, velocity: &Vec2D)
        ensures
            final(self)@ == (BodyView { velocity: velocity@, ..old(self)@ }),
    {
        match self {
            Body::Circle(circle) => circle.set_velocity(velocity),
            Body::Line(line) => line.set_velocity(velocity),
            Body::Group(group) => group.set_velocity(velocity),
        }
    }

    /// The friction coefficient.
    pub fn get_friction(&self) -> (friction_k: Scalar)
        ensures
            friction_k@ == self@.friction,
    {
        match self {
            Body::Circle(circle) => circle.get_friction(),
            Body::Line(line) => line.get_friction(),
            Body::Group(group) => group.get_friction(),
        }
    }

    /// Sets the friction coefficient.
    pub fn set_friction(&mut self, friction_k: Scalar)
        ensures
            final(self)@ == (BodyView { friction: friction_k@, ..old(self)@ }),
    {
        match self {
            Body::Circle(circle) => circle.set_friction(friction_k),
            Body::Line(line) => line.set_friction(friction_k),
            Body::Group(group) => group.set_friction(friction_k),
        }
    }

    /// Whether the body is static.
    pub fn get_static(&self) -> (is_static: bool)
        ensures
            is_static == self@.is_static,
    {
        match self {
            Body::Circle(circle) => circle.get_static(),
            Body::Line(line) => line.get_static(),
            Body::Group(group) => group.get_static(),
        }
    }

    /// Makes the body static or movable.
    pub fn set_static(&mut self, is_static: bool)
        ensures
            final(self)@ == (BodyView { is_static, ..old(self)@ }),
    {
        match self {
            Body::Circle(circle) => circle.set_static(is_static),
            Body::Line(line) => line.set_static(is_static),
            Body::Group(group) => group.set_static(is_static),
        }
    }

    /// The id; zero while none is assigned.
    pub fn get_id(&self) -> (id: usize)
        ensures
            id == self@.id,
    {
        match self {
            Body::Circle(circle) => circle.get_id(),
            Body::Line(line) => line.get_id(),
            Body::Group(group) => group.get_id(),
        }
    }

    /// Sets the id.
    pub fn set_id(&mut self, id: usize)
        ensures
            final(self)@ == (BodyView { id, ..old(self)@ }),
    {
        match self {
            Body::Circle(circle) => circle.set_id(id),
            Body::Line(line) => line.set_id(id),
            Body::Group(group) => group.set_id(id),
        }
    }

    /// The joint.
    pub fn get_pivot(&self) -> (pivot: Joint)
        ensures
            pivot@ == self@.pivot,
    {
        match self {
            Body::Circle(circle) => circle.get_pivot(),
            Body::Line(line) => line.get_pivot(),
            Body::Group(group) => group.get_pivot(),
        }
    }

    /// Sets the joint.
    pub fn set_pivot(&mut self, pivot: Joint)
        ensures
            final(self)@ == (BodyView { pivot: pivot@, ..old(self)@ }),
    {
        match self {
            Body::Circle(circle) => circle.set_pivot(pivot),
            Body::Line(line) => line.set_pivot(pivot),
            Body::Group(group) => group.set_pivot(pivot),
        }
    }

    /// The position of the anchor `id`, if there is one.
    pub fn get_anchor(&self, id: usize) -> (anchor: Option<&Vec2D>)
        ensures
            match anchor {
                Some(position) => self@.anchors.contains_key(id) && position@ == self@.anchors[id],
                None => !self@.anchors.contains_key(id),
            },
    {
        match self {
            Body::Circle(circle) => circle.get_anchor(id),
            Body::Line(line) => line.get_anchor(id),
            Body::Group(group) => group.get_anchor(id),
        }
    }

    /// The anchor table.
    pub fn get_anchors(&self) -> (anchors: &HashMap<usize, Vec2D>)
        ensures
            anchors_view(*anchors) == self@.anchors,
    {
        match self {
            Body::Circle(circle) => circle.get_anchors(),
            Body::Line(line) => line.get_anchors(),
            Body::Group(group) => group.get_anchors(),
        }
    }

    /// Puts the anchor `id` at `position`, whether or not there was one.
    pub fn add_anchor(&mut self, id: usize, position: Vec2D)
        ensures
            final(self)@ == (BodyView {
                anchors: old(self)@.anchors.insert(id, position@),
                ..old(self)@
            }),
    {
        match self {
            Body::Circle(circle) => circle.add_anchor(id, position),
            Body::Line(line) => line.add_anchor(id, position),
            Body::Group(group) => group.add_anchor(id, position),
        }
    }

    /// The angular velocity, in radians a tick.
    pub fn get_ang_velocity(&self) -> (ang_velocity: Scalar)
        ensures
            ang_velocity@ == self@.ang_velocity,
    {
        match self {
            Body::Circle(circle) => circle.get_ang_velocity(),
            Body::Line(line) => line.get_ang_velocity(),
            Body::Group(group) => group.get_ang_velocity(),
        }
    }

    /// Sets the angular velocity.
    pub fn set_ang_velocity(&mut self, ang_velocity: Scalar)
        ensures
            final(self)@ == (BodyView { ang_velocity: ang_velocity@, ..old(self)@ }),
    {
        match self {
            Body::Circle(circle) => circle.set_ang_velocity(ang_velocity),
            Body::Line(line) => line.set_ang_velocity(ang_velocity),
            Body::Group(group) => group.set_ang_velocity(ang_velocity),
        }
    }

    /// Applies the impulse `momentum` at `position`, the body turning about
    /// `pivot`: only the angular velocity changes.
    pub fn apply_impulse(&mut self, momentum: &Vec2D, position: &Vec2D, pivot: &Vec2D)
        ensures
            final(self)@ == old(self)@.apply_impulse(momentum@, position@, pivot@),
    {
        match self {
            Body::Circle(circle) => circle.apply_impulse(momentum, position, pivot),
            Body::Line(line) => line.apply_impulse(momentum, position, pivot),
            Body::Group(group) => group.apply_impulse(momentum, position, pivot),
        }
    }
}

} // verus!

