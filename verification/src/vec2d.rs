//! Vectors of the plane, the joint a body turns about, and links.
//!
//! [`Vector`] is the mathematical value that the contracts speak of: a pair
//! of raw values.  [`Vec2D`] is the vector that programs hold.

use vstd::prelude::*;
use crate::scalar::lemma_product_bound;
use crate::scalar::quot;
use crate::scalar::raw_add;
use crate::scalar::raw_div;
use crate::scalar::raw_mul;
use crate::scalar::raw_sub;
use crate::scalar::round_quot;
use crate::scalar::turn_cos;
use crate::scalar::turn_sin;
use crate::scalar::wide_round;
use crate::scalar::TURN_SCALE;
use crate::scalar::isqrt;
use crate::scalar::sat;
use crate::scalar::wide_quot;
use crate::scalar::wide_sqrt;
use crate::scalar::Scalar;
use crate::scalar::LIMIT;
use crate::scalar::SCALE;

verus! {

/// A pair of raw values: what a [`Vec2D`] stands for.
pub struct Vector {
    pub x: int,
    pub y: int,
}

impl Vector {
    /// The zero vector.
    pub open spec fn zero() -> Vector {
        Vector { x: 0, y: 0 }
    }

    /// Sum, component by component.
    pub open spec fn plus(self, other: Vector) -> Vector {
        Vector { x: raw_add(self.x, other.x), y: raw_add(self.y, other.y) }
    }

    /// Difference, component by component.
    pub open spec fn minus(self, other: Vector) -> Vector {
        Vector { x: raw_sub(self.x, other.x), y: raw_sub(self.y, other.y) }
    }

    /// The opposite vector.
    pub open spec fn negated(self) -> Vector {
        Vector { x: -self.x, y: -self.y }
    }

    /// Each component times the raw scalar `k`.
    pub open spec fn scaled(self, k: int) -> Vector {
        Vector { x: raw_mul(self.x, k), y: raw_mul(self.y, k) }
    }

    /// Dot product, rounded once.
    pub open spec fn dot(self, other: Vector) -> int {
        sat(quot(self.x * other.x + self.y * other.y, SCALE as int))
    }

    /// Cross product `self.x * other.y - self.y * other.x`, rounded once.
    pub open spec fn cross(self, other: Vector) -> int {
        sat(quot(self.x * other.y - self.y * other.x, SCALE as int))
    }

    /// Cross product, exactly, in squared raw units.
    pub open spec fn exact_cross(self, other: Vector) -> int {
        self.x * other.y - self.y * other.x
    }

    /// Length, rounded down.
    pub open spec fn norm(self) -> int {
        sat(isqrt(self.x * self.x + self.y * self.y))
    }

    /// The vector divided by its length; the zero vector stays zero.
    pub open spec fn unit(self) -> Vector {
        Vector { x: raw_div(self.x, self.norm()), y: raw_div(self.y, self.norm()) }
    }

    /// The part of `self` along `other`: `other` times
    /// `(self . other) / (other . other)`, each component rounded once.
    /// Zero where `other` is zero.
    pub open spec fn proj_on(self, other: Vector) -> Vector {
        let n = self.x * other.x + self.y * other.y;
        let d = other.x * other.x + other.y * other.y;
        Vector { x: sat(quot(other.x * n, d)), y: sat(quot(other.y * n, d)) }
    }

    /// What is left of `self` without its part along `other`.
    pub open spec fn reject_on(self, other: Vector) -> Vector {
        self.minus(self.proj_on(other))
    }

    /// The vector turned a quarter turn counter-clockwise.
    pub open spec fn perp(self) -> Vector {
        Vector { x: -self.y, y: self.x }
    }

    /// The point turned about `pivot` by the turn with fine cosine `c` and
    /// fine sine `s`: its offset from the pivot becomes `(x c - y s, x s + y c)`,
    /// each component rounded to the nearest raw value.
    pub open spec fn turned(self, c: int, s: int, pivot: Vector) -> Vector {
        let d = self.minus(pivot);
        pivot.plus(
            Vector {
                x: sat(round_quot(d.x * c - d.y * s, TURN_SCALE as int)),
                y: sat(round_quot(d.x * s + d.y * c, TURN_SCALE as int)),
            },
        )
    }

    /// The point turned about `pivot` by the raw angle `angle`.
    pub open spec fn rotated(self, angle: int, pivot: Vector) -> Vector {
        self.turned(turn_cos(angle), turn_sin(angle), pivot)
    }

    /// Whether both components are within the range of a scalar.
    pub open spec fn in_range(self) -> bool {
        -LIMIT <= self.x <= LIMIT && -LIMIT <= self.y <= LIMIT
    }
}

/// The zero vector has no direction: its unit vector is the zero vector, and
/// so is what any vector has along it.
pub proof fn lemma_zero_vector(v: Vector)
    ensures
        Vector::zero().norm() == 0,
        Vector::zero().unit() == Vector::zero(),
        v.proj_on(Vector::zero()) == Vector::zero(),
{
}

/// A vector of the plane.
#[derive(Clone, Copy, Debug, PartialEq, Eq)]
pub struct Vec2D {
    pub x: Scalar,
    pub y: Scalar,
}

impl View for Vec2D {
    type V = Vector;

    open spec fn view(&self) -> Vector {
        Vector { x: self.x@, y: self.y@ }
    }
}

impl Vec2D {
    /// The vector with the given components.
    pub fn new(x: Scalar, y: Scalar) -> (v: Vec2D)
        ensures
            v@ == (Vector { x: x@, y: y@ }),
    {
        Vec2D { x, y }
    }

    /// The zero vector.
    pub fn zero() -> (v: Vec2D)
        ensures
            v@ == Vector::zero(),
    {
        Vec2D { x: Scalar::zero(), y: Scalar::zero() }
    }

    /// Length.
    pub fn mag(&self) -> (m: Scalar)
        ensures
            m@ == self@.norm(),
    {
        let n: i128 = self.x.raw_product(&self.x) + self.y.raw_product(&self.y);
        Scalar::from_wide(wide_sqrt(n))
    }

    /// Sum.
    pub fn add(&self, other: &Vec2D) -> (v: Vec2D)
        ensures
            v@ == self@.plus(other@),
    {
        Vec2D { x: self.x.add(&other.x), y: self.y.add(&other.y) }
    }

    /// Difference.
    pub fn sub(&self, other: &Vec2D) -> (v: Vec2D)
        ensures
            v@ == self@.minus(other@),
    {
        Vec2D { x: self.x.sub(&other.x), y: self.y.sub(&other.y) }
    }

    /// The opposite vector.
    pub fn neg(&self) -> (v: Vec2D)
        ensures
            v@ == self@.negated(),
    {
        Vec2D { x: self.x.neg(), y: self.y.neg() }
    }

    /// The vector times a scalar.
    pub fn mult(&self, scalar: Scalar) -> (v: Vec2D)
        ensures
            v@ == self@.scaled(scalar@),
    {
        Vec2D { x: self.x.mul(&scalar), y: self.y.mul(&scalar) }
    }

    /// Dot product.
    pub fn dot(&self, other: &Vec2D) -> (d: Scalar)
        ensures
            d@ == self@.dot(other@),
    {
        let n: i128 = self.x.raw_product(&other.x) + self.y.raw_product(&other.y);
        Scalar::from_wide(wide_quot(n, SCALE as i128))
    }

    /// Cross product.
    pub fn cross(&self, other: &Vec2D) -> (d: Scalar)
        ensures
            d@ == self@.cross(other@),
    {
        let n: i128 = self.x.raw_product(&other.y) - self.y.raw_product(&other.x);
        Scalar::from_wide(wide_quot(n, SCALE as i128))
    }

    /// The vector divided by its length; the zero vector stays zero.
    pub fn unit(&self) -> (v: Vec2D)
        ensures
            v@ == self@.unit(),
    {
        let m: Scalar = self.mag();
        Vec2D { x: self.x.div(&m), y: self.y.div(&m) }
    }

    /// The part of `self` along `other`.
    pub fn proj_on(&self, other: &Vec2D) -> (v: Vec2D)
        ensures
            v@ == self@.proj_on(other@),
    {
        let n: i128 = self.x.raw_product(&other.x) + self.y.raw_product(&other.y);
        let d: i128 = other.x.raw_product(&other.x) + other.y.raw_product(&other.y);
        let ox: i128 = other.x.raw() as i128;
        let oy: i128 = other.y.raw() as i128;
        proof {
            lemma_product_bound(
                ox as int,
                n as int,
                LIMIT as int,
                2_000_000_000_000_000_000_000_000,
            );
            lemma_product_bound(
                oy as int,
                n as int,
                LIMIT as int,
                2_000_000_000_000_000_000_000_000,
            );
        }
        Vec2D {
            x: Scalar::from_wide(wide_quot(ox * n, d)),
            y: Scalar::from_wide(wide_quot(oy * n, d)),
        }
    }

    /// What is left of `self` without its part along `other`.
    pub fn reject_on(&self, other: &Vec2D) -> (v: Vec2D)
        ensures
            v@ == self@.reject_on(other@),
    {
        self.sub(&self.proj_on(other))
    }

    /// The vector turned a quarter turn counter-clockwise.
    pub fn perp(&self) -> (v: Vec2D)
        ensures
            v@ == self@.perp(),
    {
        Vec2D { x: self.y.neg(), y: self.x }
    }

    /// The point turned about `pivot` by `angle`.
    pub fn rotated(&self, angle: Scalar, pivot: &Vec2D) -> (v: Vec2D)
        ensures
            v@ == self@.rotated(angle@, pivot@),
    {
        let cs: (i64, i64) = angle.turn();
        let d: Vec2D = self.sub(pivot);
        let dx: i128 = d.x.raw() as i128;
        let dy: i128 = d.y.raw() as i128;
        let c: i128 = cs.0 as i128;
        let s: i128 = cs.1 as i128;
        proof {
            lemma_product_bound(dx as int, c as int, LIMIT as int, TURN_SCALE as int);
            lemma_product_bound(dy as int, s as int, LIMIT as int, TURN_SCALE as int);
            lemma_product_bound(dx as int, s as int, LIMIT as int, TURN_SCALE as int);
            lemma_product_bound(dy as int, c as int, LIMIT as int, TURN_SCALE as int);
            assert(LIMIT * TURN_SCALE == 1_000_000_000_000_000_000_000_000) by (nonlinear_arith);
        }
        let turned: Vec2D = Vec2D {
            x: Scalar::from_wide(wide_round(dx * c - dy * s, TURN_SCALE as i128)),
            y: Scalar::from_wide(wide_round(dx * s + dy * c, TURN_SCALE as i128)),
        };
        pivot.add(&turned)
    }
}

/// What a [`Joint`] stands for.
pub struct JointView {
    pub is_dynamic: bool,
    pub position: Vector,
}

/// The point a body turns about.  A dynamic joint follows the body's centre
/// of mass from tick to tick and moves to the contact point in a collision; a
/// joint that is not dynamic stays where it is.
#[derive(Clone, Copy, Debug, PartialEq, Eq)]
pub struct Joint {
    pub is_dynamic: bool,
    pub position: Vec2D,
}

impl View for Joint {
    type V = JointView;

    open spec fn view(&self) -> JointView {
        JointView { is_dynamic: self.is_dynamic, position: self.position@ }
    }
}

impl Joint {
    /// The joint at `position`.
    pub fn new(is_dynamic: bool, position: Vec2D) -> (j: Joint)
        ensures
            j@ == (JointView { is_dynamic, position: position@ }),
    {
        Joint { is_dynamic, position }
    }
}

/// A pair of anchors, one on each of two bodies.
#[derive(Clone, Copy, Debug, PartialEq, Eq)]
pub struct Link {
    pub object1_id: usize,
    pub object2_id: usize,
    pub anchor1_id: usize,
    pub anchor2_id: usize,
}

} // verus!
