//! What a collision, friction and the passing of a tick do to a body.
//!
//! Two movable bodies that collide exchange the parts of their velocities at
//! the contact point that lie along the contact normal, as two masses that
//! collide elastically on a line; the parts across the normal stay.  A
//! movable body that collides with a static one is reflected by the normal,
//! and the static one stops.  In both cases a damped share of the change of
//! momentum turns the body about its joint, and a dynamic joint moves to the
//! contact point.

use vstd::prelude::*;
use crate::collision::collides;
use crate::collision::contact;
use crate::collision::ContactView;
use crate::model::BodyView;
use crate::scalar::quot;
use crate::scalar::raw_mul;
use crate::scalar::sat;
use crate::scalar::wide_quot;
use crate::scalar::Scalar;
use crate::shapes::Body;
use crate::vec2d::Joint;
use crate::vec2d::JointView;
use crate::vec2d::Vec2D;
use crate::vec2d::Vector;

verus! {

/// Raw value of the share of a change of momentum that turns a body.
pub const DAMPING: i64 = 50_000;

/// What a [`Motion`] stands for.
pub struct MotionView {
    pub velocity: Vector,
    pub ang_velocity: int,
    pub pivot: JointView,
}

/// The part of a body's state that a collision changes.
#[derive(Clone, Copy, Debug)]
pub struct Motion {
    pub velocity: Vec2D,
    pub ang_velocity: Scalar,
    pub pivot: Joint,
}

impl View for Motion {
    type V = MotionView;

    open spec fn view(&self) -> MotionView {
        MotionView {
            velocity: self.velocity@,
            ang_velocity: self.ang_velocity@,
            pivot: self.pivot@,
        }
    }
}

impl BodyView {
    /// The velocity, the angular velocity and the joint.
    pub open spec fn motion(self) -> MotionView {
        MotionView { velocity: self.velocity, ang_velocity: self.ang_velocity, pivot: self.pivot }
    }

    /// The body with the velocity, the angular velocity and the joint of `m`.
    pub open spec fn with_motion(self, m: MotionView) -> BodyView {
        BodyView { velocity: m.velocity, ang_velocity: m.ang_velocity, pivot: m.pivot, ..self }
    }

    /// The velocity of the point of the body at `point`: the linear velocity
    /// plus the angular velocity times the perpendicular of `point - pivot`.
    pub open spec fn velocity_at(self, point: Vector) -> Vector {
        self.velocity.plus(point.minus(self.pivot.position).perp().scaled(self.ang_velocity))
    }

    /// The angular velocity after the damped impulse of a change of velocity
    /// from `before` to `after`, applied at `point` about the joint.
    pub open spec fn kicked(self, before: Vector, after: Vector, point: Vector) -> int {
        self.apply_impulse(
            after.minus(before).scaled(raw_mul(DAMPING as int, self.mass)),
            point,
            self.pivot.position,
        ).ang_velocity
    }

    /// The joint after a collision at `point`: a dynamic joint moves there.
    pub open spec fn joint_at(self, point: Vector) -> JointView {
        if self.pivot.is_dynamic {
            JointView { is_dynamic: true, position: point }
        } else {
            self.pivot
        }
    }

    /// The motion of the body after it collided with a static body, or as a
    /// static body, with the contact normal `normal` at `point`.  A static
    /// body stops and keeps its angular velocity and joint.  A movable body
    /// has the part of its velocity along the normal reversed.
    pub open spec fn bounce(self, normal: Vector, point: Vector) -> MotionView {
        if self.is_static {
            MotionView { velocity: Vector::zero(), ..self.motion() }
        } else {
            let reflected = self.velocity.proj_on(normal).negated().plus(
                self.velocity.reject_on(normal),
            );
            MotionView {
                velocity: reflected,
                ang_velocity: self.kicked(self.velocity, reflected, point),
                pivot: self.joint_at(point),
            }
        }
    }

    /// The motion of the body after an elastic collision in which the
    /// velocity of its contact point becomes `after`.  A body whose joint is
    /// not dynamic keeps its linear velocity.
    pub open spec fn struck(self, after: Vector, point: Vector) -> MotionView {
        MotionView {
            velocity: if self.pivot.is_dynamic {
                after
            } else {
                self.velocity
            },
            ang_velocity: self.kicked(self.velocity_at(point), after, point),
            pivot: self.joint_at(point),
        }
    }
}

/// The velocity along a line of a mass `mi` with velocity `vi` after it
/// collided elastically with a mass `mj` with velocity `vj`:
/// `((mi - mj) * vi + 2 * mj * vj) / (mi + mj)`, each component rounded once.
pub open spec fn elastic(vi: Vector, vj: Vector, mi: int, mj: int) -> Vector {
    Vector {
        x: sat(quot((mi - mj) * vi.x + 2 * mj * vj.x, mi + mj)),
        y: sat(quot((mi - mj) * vi.y + 2 * mj * vj.y, mi + mj)),
    }
}

/// The velocities of the contact points of two movable bodies after they
/// collided with the contact normal `normal` at `point`.
pub open spec fn exchanged(a: BodyView, b: BodyView, normal: Vector, point: Vector) -> (
    Vector,
    Vector,
) {
    let va = a.velocity_at(point);
    let vb = b.velocity_at(point);
    let along_a = va.proj_on(normal);
    let along_b = vb.proj_on(normal);
    let new_along_a = elastic(along_a, along_b, a.mass, b.mass);
    let new_along_b = along_a.minus(along_b).plus(new_along_a);
    (new_along_a.plus(va.reject_on(normal)), new_along_b.plus(vb.reject_on(normal)))
}

/// The motions of two bodies after they met with the given contact.
pub open spec fn response(a: BodyView, b: BodyView, c: ContactView) -> (MotionView, MotionView) {
    if !a.is_static && !b.is_static {
        let after = exchanged(a, b, c.0, c.1);
        (a.struck(after.0, c.1), b.struck(after.1, c.1))
    } else {
        (a.bounce(c.0, c.1), b.bounce(c.0, c.1))
    }
}

/// The motions of two bodies after one step of pair resolution: changed if
/// they overlap and have a contact, else as they were.
pub open spec fn resolve(a: BodyView, b: BodyView) -> (MotionView, MotionView) {
    match contact(a, b) {
        Some(c) => if collides(a, b) {
            response(a, b, c)
        } else {
            (a.motion(), b.motion())
        },
        None => (a.motion(), b.motion()),
    }
}

/// The magnitude of the change of velocity by friction in one tick:
/// `mass * |gravity| * friction * timestep`.
pub open spec fn friction_loss(b: BodyView, gravity: int, timestep: int) -> int {
    raw_mul(
        raw_mul(
            raw_mul(
                b.mass,
                if gravity < 0 {
                    -gravity
                } else {
                    gravity
                },
            ),
            b.friction,
        ),
        timestep,
    )
}

/// The velocity after friction: zero if friction takes at least the speed,
/// else shortened by the loss, against the direction of motion.
pub open spec fn slowed(b: BodyView, gravity: int, timestep: int) -> Vector {
    let loss = friction_loss(b, gravity, timestep);
    if loss >= b.velocity.norm() {
        Vector::zero()
    } else {
        b.velocity.minus(b.velocity.unit().scaled(loss))
    }
}

/// The body after one tick of motion: it moves by its velocity times the
/// timestep, then turns by its angular velocity times the timestep about its
/// joint, where the move has left it; a dynamic joint then returns to the
/// centre of mass.
pub open spec fn integrated(b: BodyView, timestep: int) -> BodyView {
    let moved = b.set_com(b.com().plus(b.velocity.scaled(timestep)));
    let turned = moved.rotate(raw_mul(b.ang_velocity, timestep), moved.pivot.position);
    if turned.pivot.is_dynamic {
        BodyView { pivot: JointView { is_dynamic: true, position: turned.com() }, ..turned }
    } else {
        turned
    }
}

/// The body after friction and one tick of motion.
pub open spec fn advanced(b: BodyView, gravity: int, timestep: int) -> BodyView {
    integrated(BodyView { velocity: slowed(b, gravity, timestep), ..b }, timestep)
}

impl Body {
    /// The velocity, the angular velocity and the joint.
    pub fn get_motion(&self) -> (m: Motion)
        ensures
            m@ == self@.motion(),
    {
        Motion {
            velocity: self.get_velocity(),
            ang_velocity: self.get_ang_velocity(),
            pivot: self.get_pivot(),
        }
    }

    /// Sets the velocity, the angular velocity and the joint.
    pub fn set_motion(&mut self, m: Motion)
        ensures
            final(self)@ == old(self)@.with_motion(m@),
    {
        self.set_velocity(&m.velocity);
        self.set_ang_velocity(m.ang_velocity);
        self.set_pivot(m.pivot);
    }

    /// The velocity of the point of the body at `point`.
    pub fn velocity_at(&self, point: &Vec2D) -> (v: Vec2D)
        ensures
            v@ == self@.velocity_at(point@),
    {
        let r: Vec2D = point.sub(&self.get_pivot().position);
        self.get_velocity().add(&r.perp().mult(self.get_ang_velocity()))
    }

    /// The angular velocity after the damped impulse of a change of velocity
    /// from `before` to `after`, applied at `point` about the joint.
    pub fn kicked(&self, before: &Vec2D, after: &Vec2D, point: &Vec2D) -> (w: Scalar)
        ensures
            w@ == self@.kicked(before@, after@, point@),
    {
        let pivot: Vec2D = self.get_pivot().position;
        let momentum: Vec2D = after.sub(before).mult(
            Scalar::from_raw(DAMPING).mul(&self.get_mass()),
        );
        let r: Vec2D = point.sub(&pivot);
        let h: Vec2D = pivot.sub(&self.get_com());
        let i_pivot: Scalar = self.get_i_com().add(&self.get_mass().mul(&h.dot(&h)));
        self.get_ang_velocity().add(&r.cross(&momentum).div(&i_pivot))
    }

    /// The joint after a collision at `point`.
    pub fn joint_at(&self, point: &Vec2D) -> (j: Joint)
        ensures
            j@ == self@.joint_at(point@),
    {
        let pivot: Joint = self.get_pivot();
        if pivot.is_dynamic {
            Joint { is_dynamic: true, position: *point }
        } else {
            pivot
        }
    }

    /// The motion after a collision with a static body, or as a static body.
    pub fn bounce(&self, normal: &Vec2D, point: &Vec2D) -> (m: Motion)
        ensures
            m@ == self@.bounce(normal@, point@),
    {
        if self.get_static() {
            Motion {
                velocity: Vec2D::zero(),
                ang_velocity: self.get_ang_velocity(),
                pivot: self.get_pivot(),
            }
        } else {
            let current_velocity: Vec2D = self.get_velocity();
            let new_velocity: Vec2D = current_velocity.proj_on(normal).neg().add(
                &current_velocity.reject_on(normal),
            );
            Motion {
                velocity: new_velocity,
                ang_velocity: self.kicked(&current_velocity, &new_velocity, point),
                pivot: self.joint_at(point),
            }
        }
    }

    /// The motion after an elastic collision in which the velocity of the
    /// contact point becomes `after`.
    pub fn struck(&self, after: &Vec2D, point: &Vec2D) -> (m: Motion)
        ensures
            m@ == self@.struck(after@, point@),
    {
        let pivot: Joint = self.get_pivot();
        Motion {
            velocity: if pivot.is_dynamic {
                *after
            } else {
                self.get_velocity()
            },
            ang_velocity: self.kicked(&self.velocity_at(point), after, point),
            pivot: self.joint_at(point),
        }
    }
}

/// The velocity along a line of a mass after an elastic collision with another.
pub fn elastic_velocity(vi: &Vec2D, vj: &Vec2D, mi: Scalar, mj: Scalar) -> (v: Vec2D)
    ensures
        v@ == elastic(vi@, vj@, mi@, mj@),
{
    let dm: i128 = mi.raw() as i128 - mj.raw() as i128;
    let sum: i128 = mi.raw() as i128 + mj.raw() as i128;
    let vix: i128 = vi.x.raw() as i128;
    let viy: i128 = vi.y.raw() as i128;
    let two_mj: i128 = 2 * (mj.raw() as i128);
    let vjx: i128 = vj.x.raw() as i128;
    let vjy: i128 = vj.y.raw() as i128;
    proof {
        crate::scalar::lemma_product_bound(
            dm as int,
            vix as int,
            2_000_000_000_000,
            1_000_000_000_000,
        );
        crate::scalar::lemma_product_bound(
            dm as int,
            viy as int,
            2_000_000_000_000,
            1_000_000_000_000,
        );
        crate::scalar::lemma_product_bound(
            two_mj as int,
            vjx as int,
            2_000_000_000_000,
            1_000_000_000_000,
        );
        crate::scalar::lemma_product_bound(
            two_mj as int,
            vjy as int,
            2_000_000_000_000,
            1_000_000_000_000,
        );
        assert(2 * mj@ * vj@.x == two_mj * vjx) by (nonlinear_arith)
            requires
                two_mj == 2 * mj@,
                vjx == vj@.x,
        ;
        assert(2 * mj@ * vj@.y == two_mj * vjy) by (nonlinear_arith)
            requires
                two_mj == 2 * mj@,
                vjy == vj@.y,
        ;
    }
    Vec2D {
        x: Scalar::from_wide(wide_quot(dm * vix + two_mj * vjx, sum)),
        y: Scalar::from_wide(wide_quot(dm * viy + two_mj * vjy, sum)),
    }
}

/// The velocities of the contact points of two movable bodies after they collided.
pub fn exchange(a: &Body, b: &Body, normal: &Vec2D, point: &Vec2D) -> (after: (Vec2D, Vec2D))
    ensures
        (after.0@, after.1@) == exchanged(a@, b@, normal@, point@),
{
    let current_velocity: Vec2D = a.velocity_at(point);
    let other_velocity: Vec2D = b.velocity_at(point);
    let current_v_parallel: Vec2D = current_velocity.proj_on(normal);
    let other_v_parallel: Vec2D = other_velocity.proj_on(normal);
    let current_final_v_parallel: Vec2D = elastic_velocity(
        &current_v_parallel,
        &other_v_parallel,
        a.get_mass(),
        b.get_mass(),
    );
    let other_final_v_parallel: Vec2D = current_v_parallel.sub(&other_v_parallel).add(
        &current_final_v_parallel,
    );
    (
        current_final_v_parallel.add(&current_velocity.reject_on(normal)),
        other_final_v_parallel.add(&other_velocity.reject_on(normal)),
    )
}

/// The motions of two bodies after they met with the given contact.
pub fn respond(a: &Body, b: &Body, normal: &Vec2D, point: &Vec2D) -> (m: (Motion, Motion))
    ensures
        (m.0@, m.1@) == response(a@, b@, (normal@, point@)),
{
    if !a.get_static() && !b.get_static() {
        let after: (Vec2D, Vec2D) = exchange(a, b, normal, point);
        (a.struck(&after.0, point), b.struck(&after.1, point))
    } else {
        (a.bounce(normal, point), b.bounce(normal, point))
    }
}

/// The motions of two bodies after one step of pair resolution.
pub fn resolve_pair(a: &Body, b: &Body) -> (m: (Motion, Motion))
    ensures
        (m.0@, m.1@) == resolve(a@, b@),
{
    let has_collided: bool = a.has_collided(b);
    let found: Option<(Vec2D, Vec2D)> = a.collision_direction(b);
    match found {
        Some((normal, point)) => {
            if has_collided {
                respond(a, b, &normal, &point)
            } else {
                (a.get_motion(), b.get_motion())
            }
        },
        None => (a.get_motion(), b.get_motion()),
    }
}

/// Applies friction to the body for one tick, then moves and turns it.
pub fn advance(body: &mut Body, gravity: Scalar, timestep: Scalar)
    ensures
        final(body)@ == advanced(old(body)@, gravity@, timestep@),
{
    let friction_k: Scalar = body.get_mass().mul(&gravity.abs()).mul(&body.get_friction());
    let loss: Scalar = friction_k.mul(&timestep);
    let velocity: Vec2D = body.get_velocity();
    if loss.lt(&velocity.mag()) {
        let new_velocity: Vec2D = velocity.sub(&velocity.unit().mult(loss));
        body.set_velocity(&new_velocity);
    } else {
        body.set_velocity(&Vec2D::zero());
    }
    let com: Vec2D = body.get_com();
    let velocity: Vec2D = body.get_velocity();
    let ang_velocity: Scalar = body.get_ang_velocity();
    body.set_com(&com.add(&velocity.mult(timestep)));
    let pivot: Vec2D = body.get_pivot().position;
    body.rotate(ang_velocity.mul(&timestep), pivot);
    let mut new_pivot: Joint = body.get_pivot();
    if new_pivot.is_dynamic {
        new_pivot.position = body.get_com();
        body.set_pivot(new_pivot);
    }
}

} // verus!
