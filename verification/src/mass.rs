//! The masses of bodies and of the children of groups, which neither a move
//! nor a turn nor a tick changes.

use vstd::prelude::*;
use crate::centre::exact_mass;
use crate::dynamics::advanced;
use crate::model::BodyView;
use crate::vec2d::Vector;
use crate::world::lemma_resolve_from_frame;
use crate::world::resolve_from;
use crate::world::WorldView;

verus! {

/// The two bodies have the same mass; both are groups or neither is; and if
/// they are groups, they have as many children, which have the same masses
/// one by one, and so on down.
pub open spec fn same_masses(a: BodyView, b: BodyView) -> bool
    decreases a,
{
    &&& a.mass == b.mass
    &&& (a.shape is Group) == (b.shape is Group)
    &&& a.children().len() == b.children().len()
    &&& forall|i: int|
        0 <= i < a.children().len() ==> same_masses(
            #[trigger] a.children()[i],
            b.children()[i],
        )
}

/// A body has the same masses as itself, whatever its motion.
pub proof fn lemma_same_masses_of_same_shape(a: BodyView, b: BodyView)
    requires
        a.mass == b.mass,
        a.shape == b.shape,
    ensures
        same_masses(a, b),
    decreases a,
{
    assert forall|i: int| 0 <= i < a.children().len() implies same_masses(
        #[trigger] a.children()[i],
        b.children()[i],
    ) by {
        lemma_same_masses_of_same_shape(a.children()[i], a.children()[i]);
    }
}

/// Bodies that have the same masses as a third have the same masses.
pub proof fn lemma_same_masses_chain(a: BodyView, b: BodyView, c: BodyView)
    requires
        same_masses(a, b),
        same_masses(b, c),
    ensures
        same_masses(a, c),
    decreases a,
{
    assert forall|i: int| 0 <= i < a.children().len() implies same_masses(
        #[trigger] a.children()[i],
        c.children()[i],
    ) by {
        assert(same_masses(a.children()[i], b.children()[i]));
        assert(same_masses(b.children()[i], c.children()[i]));
        lemma_same_masses_chain(a.children()[i], b.children()[i], c.children()[i]);
    }
}

/// Moving a body changes no mass, neither its own nor that of a child.
pub proof fn lemma_set_com_keeps_masses(b: BodyView, p: Vector)
    ensures
        same_masses(b, b.set_com(p)),
    decreases b,
{
    let moved = b.set_com(p);
    if b.childless() {
        lemma_same_masses_of_same_shape(b, b);
    } else {
        assert forall|i: int| 0 <= i < b.children().len() implies same_masses(
            #[trigger] b.children()[i],
            moved.children()[i],
        ) by {
            let d = p.minus(b.com());
            let child = b.children()[i];
            lemma_set_com_keeps_masses(child, child.com().plus(d));
        }
    }
}

/// Turning a body changes no mass, neither its own nor that of a child.
pub proof fn lemma_rotate_keeps_masses(b: BodyView, angle: int, pivot: Vector)
    ensures
        same_masses(b, b.rotate(angle, pivot)),
    decreases b,
{
    let turned = b.rotate(angle, pivot);
    assert forall|i: int| 0 <= i < b.children().len() implies same_masses(
        #[trigger] b.children()[i],
        turned.children()[i],
    ) by {
        lemma_rotate_keeps_masses(b.children()[i], angle, pivot);
    }
}

/// Friction and the motion of a tick change no mass, neither that of the
/// body nor that of a child.
pub proof fn lemma_advanced_keeps_masses(b: BodyView, gravity: int, timestep: int)
    ensures
        same_masses(b, advanced(b, gravity, timestep)),
{
    let slow = BodyView { velocity: crate::dynamics::slowed(b, gravity, timestep), ..b };
    lemma_same_masses_of_same_shape(b, slow);
    let target = slow.com().plus(slow.velocity.scaled(timestep));
    let moved = slow.set_com(target);
    lemma_set_com_keeps_masses(slow, target);
    let angle = crate::scalar::raw_mul(slow.ang_velocity, timestep);
    let turned = moved.rotate(angle, moved.pivot.position);
    lemma_rotate_keeps_masses(moved, angle, moved.pivot.position);
    lemma_same_masses_of_same_shape(turned, advanced(b, gravity, timestep));
    lemma_same_masses_chain(b, slow, moved);
    lemma_same_masses_chain(b, moved, turned);
    lemma_same_masses_chain(b, turned, advanced(b, gravity, timestep));
}

/// A tick changes no mass: every body of the world has the mass it had, and
/// so has every child of a group, however deep.
pub proof fn lemma_update_keeps_masses(w: WorldView, i: int)
    requires
        0 <= i < w.bodies.len(),
    ensures
        w.update().bodies.len() == w.bodies.len(),
        same_masses(w.bodies[i], w.update().bodies[i]),
{
    lemma_resolve_from_frame(w.bodies, 0, 1);
    let resolved = resolve_from(w.bodies, 0, 1);
    assert(w.bodies[i].with_motion(resolved[i].motion()) == resolved[i]);
    lemma_same_masses_of_same_shape(w.bodies[i], resolved[i]);
    lemma_advanced_keeps_masses(resolved[i], w.gravity, w.timestep);
    lemma_same_masses_chain(w.bodies[i], resolved[i], w.update().bodies[i]);
}

/// The mass of every group in the body, however deep, is the sum of the
/// masses of its children.
pub open spec fn masses_add_up(b: BodyView) -> bool
    decreases b,
{
    &&& b.shape is Group ==> b.mass == exact_mass(b.children(), b.children().len() as int)
    &&& forall|i: int| 0 <= i < b.children().len() ==> masses_add_up(#[trigger] b.children()[i])
}

/// Bodies with the same masses, one by one, have the same sum of masses.
pub proof fn lemma_same_exact_mass(a: Seq<BodyView>, b: Seq<BodyView>, n: int)
    requires
        0 <= n <= a.len(),
        a.len() == b.len(),
        forall|i: int| 0 <= i < a.len() ==> (#[trigger] a[i]).mass == b[i].mass,
    ensures
        exact_mass(a, n) == exact_mass(b, n),
    decreases n,
{
    if n > 0 {
        lemma_same_exact_mass(a, b, n - 1);
    }
}

/// In a body with the same masses as one whose masses add up, the masses
/// add up.
pub proof fn lemma_masses_still_add_up(a: BodyView, b: BodyView)
    requires
        same_masses(a, b),
        masses_add_up(a),
    ensures
        masses_add_up(b),
    decreases a,
{
    assert forall|i: int| 0 <= i < a.children().len() implies (#[trigger] a.children()[i]).mass
        == b.children()[i].mass by {
        assert(same_masses(a.children()[i], b.children()[i]));
    }
    lemma_same_exact_mass(a.children(), b.children(), a.children().len() as int);
    assert forall|i: int| 0 <= i < b.children().len() implies masses_add_up(
        #[trigger] b.children()[i],
    ) by {
        assert(same_masses(a.children()[i], b.children()[i]));
        assert(masses_add_up(a.children()[i]));
        lemma_masses_still_add_up(a.children()[i], b.children()[i]);
    }
}

/// After a tick the mass of every group, however deep, is the sum of the
/// masses of its children, if it was so before.
pub proof fn lemma_update_masses_add_up(w: WorldView, i: int)
    requires
        0 <= i < w.bodies.len(),
        masses_add_up(w.bodies[i]),
    ensures
        masses_add_up(w.update().bodies[i]),
{
    lemma_update_keeps_masses(w, i);
    lemma_masses_still_add_up(w.bodies[i], w.update().bodies[i]);
}

} // verus!
