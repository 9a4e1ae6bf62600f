//! The world: the bodies of a simulation, each under its own id, and the tick
//! that advances them.
//!
//! The bodies are kept in ascending order of their ids.  A tick first
//! resolves the collisions of every pair of bodies, the pairs taken in that
//! order; then every body loses speed to friction, moves and turns.

use vstd::prelude::*;
use crate::collision::collides;
use crate::collision::contact;
use crate::collision::lemma_collides_by_shape;
use crate::collision::lemma_collides_symmetric;
use crate::collision::lemma_contact;
use crate::dynamics::advance;
use crate::dynamics::advanced;
use crate::dynamics::resolve;
use crate::dynamics::resolve_pair;
use crate::dynamics::Motion;
use crate::model::BodyView;
use crate::scalar::Scalar;
use crate::shapes::views;
use crate::shapes::Body;
use crate::vec2d::Vector;

verus! {

/// What a [`World`] stands for.
pub struct WorldView {
    pub gravity: int,
    pub timestep: int,
    pub bodies: Seq<BodyView>,
    pub next_id: usize,
}

/// Whether a body of `bodies` has the id `id`.
pub open spec fn occupied(bodies: Seq<BodyView>, id: usize) -> bool {
    exists|i: int| 0 <= i < bodies.len() && (#[trigger] bodies[i]).id == id
}

/// Whether `id` is the least id from `start` on that no body of `bodies` has.
pub open spec fn is_fresh(bodies: Seq<BodyView>, start: usize, id: usize) -> bool {
    &&& start <= id
    &&& !occupied(bodies, id)
    &&& forall|k: usize| start <= k < id ==> occupied(bodies, k)
}

/// The least id from `start` on that no body of `bodies` has.
pub open spec fn fresh_id(bodies: Seq<BodyView>, start: usize) -> usize {
    choose|id: usize| is_fresh(bodies, start, id)
}

/// The ids are nonzero and ascend strictly: no two bodies share one.
pub open spec fn ascending(bodies: Seq<BodyView>) -> bool {
    &&& forall|i: int| 0 <= i < bodies.len() ==> (#[trigger] bodies[i]).id != 0
    &&& forall|i: int, j: int|
        0 <= i < j < bodies.len() ==> (#[trigger] bodies[i]).id < (#[trigger] bodies[j]).id
}

/// The number of the first `n` bodies with an id less than `id`.
pub open spec fn rank(bodies: Seq<BodyView>, id: usize, n: int) -> int
    decreases n,
{
    if n <= 0 {
        0
    } else if bodies[n - 1].id < id {
        rank(bodies, id, n - 1) + 1
    } else {
        rank(bodies, id, n - 1)
    }
}

/// The bodies after the collision of the `a`-th and the `b`-th is resolved.
pub open spec fn resolve_at(bodies: Seq<BodyView>, a: int, b: int) -> Seq<BodyView> {
    let m = resolve(bodies[a], bodies[b]);
    bodies.update(a, bodies[a].with_motion(m.0)).update(b, bodies[b].with_motion(m.1))
}

/// The bodies after the collisions of the pairs from `(a, b)` on are
/// resolved, one pair after the other: `b` runs over the bodies after the
/// `a`-th, and `a` over all bodies.
pub open spec fn resolve_from(bodies: Seq<BodyView>, a: int, b: int) -> Seq<BodyView>
    decreases bodies.len() - a, bodies.len() - b,
{
    if a < 0 || b <= a || a >= bodies.len() {
        bodies
    } else if b >= bodies.len() {
        resolve_from(bodies, a + 1, a + 2)
    } else {
        resolve_from(resolve_at(bodies, a, b), a, b + 1)
    }
}

/// Each body after friction and one tick of motion.
pub open spec fn advance_all(bodies: Seq<BodyView>, gravity: int, timestep: int) -> Seq<BodyView> {
    Seq::new(bodies.len(), |i: int| advanced(bodies[i], gravity, timestep))
}

impl WorldView {
    /// The world after one tick.
    pub open spec fn update(self) -> WorldView {
        WorldView {
            bodies: advance_all(resolve_from(self.bodies, 0, 1), self.gravity, self.timestep),
            ..self
        }
    }

    /// The id that a body without one would get: the least unused id that is
    /// neither zero nor below `next_id`.
    pub open spec fn next_free(self) -> usize {
        fresh_id(
            self.bodies,
            if self.next_id == 0 {
                1
            } else {
                self.next_id
            },
        )
    }

    /// The world with one more body.  A body with the id zero gets the next
    /// free id, and `next_id` moves past it; another body keeps its id.  The
    /// body takes its place in the order of ids.
    pub open spec fn add(self, body: BodyView) -> WorldView {
        let id = if body.id == 0 {
            self.next_free()
        } else {
            body.id
        };
        WorldView {
            bodies: self.bodies.insert(
                rank(self.bodies, id, self.bodies.len() as int),
                BodyView { id, ..body },
            ),
            next_id: if body.id == 0 {
                (id + 1) as usize
            } else {
                self.next_id
            },
            ..self
        }
    }

    /// Whether a body can be added: an id other than zero must be unused; for
    /// the id zero the ids must not be exhausted.
    pub open spec fn admits(self, body: BodyView) -> bool {
        if body.id == 0 {
            self.next_id + self.bodies.len() + 1 < usize::MAX
        } else {
            !occupied(self.bodies, body.id)
        }
    }

    /// The sum of the masses of the first `n` bodies.
    pub open spec fn mass_of(self, n: int) -> int
        decreases n,
    {
        if n <= 0 {
            0
        } else {
            self.mass_of(n - 1) + self.bodies[n - 1].mass
        }
    }

    /// The sum of the masses of all bodies.
    pub open spec fn total_mass(self) -> int {
        self.mass_of(self.bodies.len() as int)
    }
}

/// Only one id is the least unused one.
pub proof fn lemma_fresh_unique(bodies: Seq<BodyView>, start: usize, id1: usize, id2: usize)
    requires
        is_fresh(bodies, start, id1),
        is_fresh(bodies, start, id2),
    ensures
        id1 == id2,
{
}

/// An id that is the least unused one from `start` on is the fresh id.
pub proof fn lemma_fresh_is(bodies: Seq<BodyView>, start: usize, id: usize)
    requires
        is_fresh(bodies, start, id),
    ensures
        fresh_id(bodies, start) == id,
{
    lemma_fresh_unique(bodies, start, id, fresh_id(bodies, start));
}

/// In ascending bodies, a position before which all ids are less than `id`
/// and from which on none is, is the rank of `id`.
pub proof fn lemma_rank(bodies: Seq<BodyView>, id: usize, p: int, n: int)
    requires
        0 <= p <= bodies.len(),
        0 <= n <= bodies.len(),
        forall|i: int| 0 <= i < p ==> (#[trigger] bodies[i]).id < id,
        forall|i: int| p <= i < bodies.len() ==> (#[trigger] bodies[i]).id >= id,
    ensures
        rank(bodies, id, n) == if n <= p {
            n
        } else {
            p
        },
    decreases n,
{
    if n > 0 {
        lemma_rank(bodies, id, p, n - 1);
    }
}

/// Whether the `k`-th body takes part in a collision that is resolved among
/// the pairs from `(a, b)` on.
pub open spec fn hit_during(bodies: Seq<BodyView>, a: int, b: int, k: int) -> bool
    decreases bodies.len() - a, bodies.len() - b,
{
    if a < 0 || b <= a || a >= bodies.len() {
        false
    } else if b >= bodies.len() {
        hit_during(bodies, a + 1, a + 2, k)
    } else {
        ((k == a || k == b) && collides(bodies[a], bodies[b]) && contact(
            bodies[a],
            bodies[b],
        ) is Some) || hit_during(resolve_at(bodies, a, b), a, b + 1, k)
    }
}

/// Resolving collisions changes the velocity, the angular velocity and the
/// joint of a body, and nothing else; the number of bodies stays.
pub proof fn lemma_resolve_from_frame(bodies: Seq<BodyView>, a: int, b: int)
    ensures
        resolve_from(bodies, a, b).len() == bodies.len(),
        forall|i: int|
            0 <= i < bodies.len() ==> bodies[i].with_motion(
                (#[trigger] resolve_from(bodies, a, b)[i]).motion(),
            ) == resolve_from(bodies, a, b)[i],
    decreases bodies.len() - a, bodies.len() - b,
{
    if a < 0 || b <= a || a >= bodies.len() {
    } else if b >= bodies.len() {
        lemma_resolve_from_frame(bodies, a + 1, a + 2);
    } else {
        lemma_resolve_from_frame(resolve_at(bodies, a, b), a, b + 1);
    }
}

/// A static body that is at rest, or that takes part in a resolved
/// collision, is at rest when the collisions are resolved.
pub proof fn lemma_resolve_from_static(bodies: Seq<BodyView>, a: int, b: int, k: int)
    requires
        0 <= k < bodies.len(),
        bodies[k].is_static,
        bodies[k].velocity == Vector::zero() || hit_during(bodies, a, b, k),
    ensures
        resolve_from(bodies, a, b)[k].velocity == Vector::zero(),
    decreases bodies.len() - a, bodies.len() - b,
{
    if a < 0 || b <= a || a >= bodies.len() {
    } else if b >= bodies.len() {
        lemma_resolve_from_static(bodies, a + 1, a + 2, k);
    } else {
        lemma_resolve_from_static(resolve_at(bodies, a, b), a, b + 1, k);
    }
}

/// Friction and motion leave a body at rest at rest, whatever else they do.
pub proof fn lemma_advanced_rest(b: BodyView, gravity: int, timestep: int)
    requires
        b.velocity == Vector::zero(),
    ensures
        advanced(b, gravity, timestep).velocity == Vector::zero(),
{
    assert(b.velocity.norm() == 0);
    assert(b.velocity.unit() == Vector::zero());
}

/// Friction and motion change neither the mass nor the id of a body, nor
/// whether it is static.
pub proof fn lemma_advanced_frame(b: BodyView, gravity: int, timestep: int)
    ensures
        advanced(b, gravity, timestep).mass == b.mass,
        advanced(b, gravity, timestep).id == b.id,
        advanced(b, gravity, timestep).is_static == b.is_static,
        advanced(b, gravity, timestep).friction == b.friction,
{
}

/// A tick changes neither the number of bodies nor the id or the mass of a
/// body, nor whether it is static.
pub proof fn lemma_update_frame(w: WorldView)
    ensures
        w.update().bodies.len() == w.bodies.len(),
        forall|i: int|
            0 <= i < w.bodies.len() ==> {
                &&& (#[trigger] w.update().bodies[i]).id == w.bodies[i].id
                &&& w.update().bodies[i].mass == w.bodies[i].mass
                &&& w.update().bodies[i].is_static == w.bodies[i].is_static
                &&& w.update().bodies[i].friction == w.bodies[i].friction
            },
{
    lemma_resolve_from_frame(w.bodies, 0, 1);
    let resolved = resolve_from(w.bodies, 0, 1);
    assert forall|i: int| 0 <= i < w.bodies.len() implies {
        &&& (#[trigger] w.update().bodies[i]).id == w.bodies[i].id
        &&& w.update().bodies[i].mass == w.bodies[i].mass
        &&& w.update().bodies[i].is_static == w.bodies[i].is_static
        &&& w.update().bodies[i].friction == w.bodies[i].friction
    } by {
        lemma_advanced_frame(resolved[i], w.gravity, w.timestep);
        assert(w.bodies[i].with_motion(resolved[i].motion()) == resolved[i]);
    }
}

/// After a tick a dynamic joint is at the centre of mass of its body.
pub proof fn lemma_update_joints(w: WorldView, i: int)
    requires
        0 <= i < w.bodies.len(),
        w.update().bodies[i].pivot.is_dynamic,
    ensures
        w.update().bodies[i].pivot.position == w.update().bodies[i].com(),
{
    lemma_resolve_from_frame(w.bodies, 0, 1);
}

/// Bodies with the same masses, one by one, have the same total mass.
pub proof fn lemma_mass_of(v: WorldView, w: WorldView, n: int)
    requires
        0 <= n <= v.bodies.len(),
        v.bodies.len() == w.bodies.len(),
        forall|i: int| 0 <= i < v.bodies.len() ==> (#[trigger] v.bodies[i]).mass == w.bodies[i].mass,
    ensures
        v.mass_of(n) == w.mass_of(n),
    decreases n,
{
    if n > 0 {
        lemma_mass_of(v, w, n - 1);
    }
}

/// The total mass of the bodies of a world is the same after a tick.
pub proof fn lemma_update_keeps_mass(w: WorldView)
    ensures
        w.update().total_mass() == w.total_mass(),
{
    lemma_update_frame(w);
    lemma_mass_of(w.update(), w, w.bodies.len() as int);
}

/// A static body that took part in a collision that a tick resolved is at
/// rest after the tick.
pub proof fn lemma_static_body_rests(w: WorldView, k: int)
    requires
        0 <= k < w.bodies.len(),
        w.bodies[k].is_static,
        hit_during(w.bodies, 0, 1, k),
    ensures
        w.update().bodies[k].velocity == Vector::zero(),
{
    lemma_resolve_from_static(w.bodies, 0, 1, k);
    lemma_resolve_from_frame(w.bodies, 0, 1);
    lemma_advanced_rest(resolve_from(w.bodies, 0, 1)[k], w.gravity, w.timestep);
}

/// Two bodies that overlap take part in a collision that is resolved, if
/// their pair is still to come.
pub proof fn lemma_hit_when_overlapping(bodies: Seq<BodyView>, a: int, b: int, lo: int, hi: int)
    requires
        0 <= a < b,
        0 <= lo < hi < bodies.len(),
        collides(bodies[lo], bodies[hi]),
        a < lo || (a == lo && b <= hi),
    ensures
        hit_during(bodies, a, b, lo),
        hit_during(bodies, a, b, hi),
    decreases bodies.len() - a, bodies.len() - b,
{
    if b >= bodies.len() {
        lemma_hit_when_overlapping(bodies, a + 1, a + 2, lo, hi);
    } else if a == lo && b == hi {
        lemma_contact(bodies[a], bodies[b]);
    } else {
        let next = resolve_at(bodies, a, b);
        lemma_collides_by_shape(bodies[lo], bodies[hi], next[lo], next[hi]);
        lemma_hit_when_overlapping(next, a, b + 1, lo, hi);
    }
}

/// Resolving collisions does not change the angular velocity of a static body.
pub proof fn lemma_resolve_from_static_turn(bodies: Seq<BodyView>, a: int, b: int, k: int)
    requires
        0 <= k < bodies.len(),
        bodies[k].is_static,
    ensures
        resolve_from(bodies, a, b)[k].ang_velocity == bodies[k].ang_velocity,
    decreases bodies.len() - a, bodies.len() - b,
{
    if a < 0 || b <= a || a >= bodies.len() {
    } else if b >= bodies.len() {
        lemma_resolve_from_static_turn(bodies, a + 1, a + 2, k);
    } else {
        lemma_resolve_from_static_turn(resolve_at(bodies, a, b), a, b + 1, k);
    }
}

/// A static body that overlaps another body of the world when a tick begins
/// is at rest after the tick, and turns as fast as before.
pub proof fn lemma_static_body_rests_when_overlapping(w: WorldView, k: int, other: int)
    requires
        0 <= k < w.bodies.len(),
        0 <= other < w.bodies.len(),
        k != other,
        w.bodies[k].is_static,
        collides(w.bodies[k], w.bodies[other]),
    ensures
        w.update().bodies[k].velocity == Vector::zero(),
        w.update().bodies[k].ang_velocity == w.bodies[k].ang_velocity,
        w.update().bodies[k].is_static,
{
    if k < other {
        lemma_hit_when_overlapping(w.bodies, 0, 1, k, other);
    } else {
        lemma_collides_symmetric(w.bodies[k], w.bodies[other]);
        lemma_hit_when_overlapping(w.bodies, 0, 1, other, k);
    }
    lemma_static_body_rests(w, k);
    lemma_resolve_from_static_turn(w.bodies, 0, 1, k);
    lemma_resolve_from_frame(w.bodies, 0, 1);
    lemma_update_frame(w);
}

/// Adding a body to ascending bodies keeps every body that was there,
/// unchanged and in order: those with a lesser id where they were, the others
/// one place on.
pub proof fn lemma_add_keeps_bodies(w: WorldView, body: BodyView, i: int)
    requires
        ascending(w.bodies),
        0 <= i < w.bodies.len(),
    ensures
        w.add(body).bodies.len() == w.bodies.len() + 1,
        ({
            let id = if body.id == 0 {
                w.next_free()
            } else {
                body.id
            };
            w.add(body).bodies[if w.bodies[i].id < id {
                i
            } else {
                i + 1
            }] == w.bodies[i]
        }),
{
    let id = if body.id == 0 {
        w.next_free()
    } else {
        body.id
    };
    lemma_rank_splits(w.bodies, id, w.bodies.len() as int);
}

/// In ascending bodies the first `n` with an id less than `id` come first,
/// and they are as many as the rank of `id` among the first `n`.
pub proof fn lemma_rank_splits(bodies: Seq<BodyView>, id: usize, n: int)
    requires
        ascending(bodies),
        0 <= n <= bodies.len(),
    ensures
        0 <= rank(bodies, id, n) <= n,
        forall|i: int| 0 <= i < rank(bodies, id, n) ==> (#[trigger] bodies[i]).id < id,
        forall|i: int| rank(bodies, id, n) <= i < n ==> (#[trigger] bodies[i]).id >= id,
    decreases n,
{
    if n > 0 {
        lemma_rank_splits(bodies, id, n - 1);
        let r = rank(bodies, id, n - 1);
        if bodies[n - 1].id < id && r < n - 1 {
            assert(bodies[r].id >= id);
            assert(bodies[r].id < bodies[n - 1].id);
        }
    }
}

/// Ascending ids are distinct: no two bodies share one.
pub proof fn lemma_ids_distinct(bodies: Seq<BodyView>, i: int, j: int)
    requires
        ascending(bodies),
        0 <= i < bodies.len(),
        0 <= j < bodies.len(),
        i != j,
    ensures
        bodies[i].id != bodies[j].id,
{
    if i < j {
        assert(bodies[i].id < bodies[j].id);
    } else {
        assert(bodies[j].id < bodies[i].id);
    }
}

/// The bodies of a simulation and its constants.
#[derive(Debug)]
pub struct World {
    pub gravity: Scalar,
    pub objects: Vec<Body>,
    pub timestep: Scalar,
    pub next_id: usize,
}

impl View for World {
    type V = WorldView;

    open spec fn view(&self) -> WorldView {
        WorldView {
            gravity: self.gravity@,
            timestep: self.timestep@,
            bodies: views(self.objects),
            next_id: self.next_id,
        }
    }
}

/// Resolves the collisions of every pair of bodies, in order.
pub fn resolve_all(objects: &mut Vec<Body>)
    ensures
        views(*final(objects)) == resolve_from(views(*old(objects)), 0, 1),
{
    let n: usize = objects.len();
    let mut a: usize = 0;
    while a < n
        invariant
            a <= n,
            n == objects.len(),
            views(*objects).len() == n,
            resolve_from(views(*objects), a as int, a + 1) == resolve_from(
                views(*old(objects)),
                0,
                1,
            ),
        decreases n - a,
    {
        let mut b: usize = a + 1;
        while b < n
            invariant
                a < b <= n,
                n == objects.len(),
                views(*objects).len() == n,
                resolve_from(views(*objects), a as int, b as int) == resolve_from(
                    views(*old(objects)),
                    0,
                    1,
                ),
            decreases n - b,
        {
            let ghost before: Seq<BodyView> = views(*objects);
            let m: (Motion, Motion) = resolve_pair(&objects[a], &objects[b]);
            let first: &mut Body = &mut objects[a];
            first.set_motion(m.0);
            let second: &mut Body = &mut objects[b];
            second.set_motion(m.1);
            assert(views(*objects) =~= resolve_at(before, a as int, b as int));
            b += 1;
        }
        a += 1;
    }
}

/// Applies friction to every body, then moves and turns it.
pub fn advance_each(objects: &mut Vec<Body>, gravity: Scalar, timestep: Scalar)
    ensures
        views(*final(objects)) == advance_all(views(*old(objects)), gravity@, timestep@),
{
    let ghost before: Seq<BodyView> = views(*objects);
    let mut i: usize = 0;
    while i < objects.len()
        invariant
            i <= objects.len(),
            views(*objects).len() == before.len(),
            objects.len() == before.len(),
            forall|j: int|
                0 <= j < i ==> #[trigger] views(*objects)[j] == advanced(
                    before[j],
                    gravity@,
                    timestep@,
                ),
            forall|j: int| i <= j < objects.len() ==> #[trigger] views(*objects)[j] == before[j],
        decreases objects.len() - i,
    {
        let ghost earlier: Seq<BodyView> = views(*objects);
        let body: &mut Body = &mut objects[i];
        advance(body, gravity, timestep);
        assert(views(*objects) =~= earlier.update(
            i as int,
            advanced(earlier[i as int], gravity@, timestep@),
        ));
        i += 1;
    }
    assert(views(*objects) =~= advance_all(before, gravity@, timestep@));
}

impl World {
    /// A world without bodies.
    pub fn new(gravity: Scalar, timestep: Scalar) -> (world: World)
        ensures
            world@ == (WorldView {
                gravity: gravity@,
                timestep: timestep@,
                bodies: Seq::empty(),
                next_id: 0,
            }),
            ascending(world@.bodies),
    {
        let world = World { gravity, objects: Vec::new(), timestep, next_id: 0 };
        assert(views(world.objects) =~= Seq::empty());
        world
    }

    /// Whether a body has the id `id`.
    pub fn contains_id(&self, id: usize) -> (found: bool)
        ensures
            found == occupied(self@.bodies, id),
    {
        let mut i: usize = 0;
        while i < self.objects.len()
            invariant
                i <= self.objects.len(),
                forall|j: int| 0 <= j < i ==> (#[trigger] self@.bodies[j]).id != id,
            decreases self.objects.len() - i,
        {
            if self.objects[i].get_id() == id {
                assert(self@.bodies[i as int].id == id);
                return true;
            }
            i += 1;
        }
        false
    }

    /// The least unused id that is neither zero nor below `next_id`.
    pub fn find_free_id(&self) -> (id: usize)
        requires
            ascending(self@.bodies),
            self@.next_id + self@.bodies.len() + 1 < usize::MAX,
        ensures
            id == self@.next_free(),
            is_fresh(
                self@.bodies,
                if self@.next_id == 0 {
                    1
                } else {
                    self@.next_id
                },
                id,
            ),
            id < usize::MAX,
            id <= self@.next_id + self@.bodies.len() + 1,
    {
        let start: usize = if self.next_id == 0 {
            1
        } else {
            self.next_id
        };
        let n: usize = self.objects.len();
        let mut i: usize = 0;
        while i < n && self.objects[i].get_id() < start
            invariant
                i <= n,
                n == self.objects.len(),
                forall|j: int| 0 <= j < i ==> (#[trigger] self@.bodies[j]).id < start,
            decreases n - i,
        {
            i += 1;
        }
        let first: usize = i;
        let mut id: usize = start;
        while i < n && self.objects[i].get_id() == id
            invariant
                first <= i <= n,
                n == self.objects.len(),
                n == self@.bodies.len(),
                ascending(self@.bodies),
                start + n + 1 <= usize::MAX,
                id == start + (i - first),
                forall|k: usize| start <= k < id ==> occupied(self@.bodies, k),
                forall|j: int| 0 <= j < i ==> (#[trigger] self@.bodies[j]).id < id,
                i < n ==> self@.bodies[i as int].id >= id,
            decreases n - i,
        {
            assert forall|k: usize| start <= k < id + 1 implies occupied(self@.bodies, k) by {
                if k == id {
                    assert(self@.bodies[i as int].id == k);
                }
            }
            id += 1;
            i += 1;
        }
        proof {
            assert forall|j: int| 0 <= j < n implies (#[trigger] self@.bodies[j]).id != id by {
                if j >= i {
                    assert(self@.bodies[i as int].id > id);
                    assert(self@.bodies[i as int].id <= self@.bodies[j].id);
                }
            }
            assert(!occupied(self@.bodies, id));
            assert(is_fresh(self@.bodies, start, id));
            lemma_fresh_is(self@.bodies, start, id);
        }
        id
    }

    /// The number of bodies with an id less than `id`.
    pub fn position_of(&self, id: usize) -> (p: usize)
        requires
            ascending(self@.bodies),
        ensures
            p == rank(self@.bodies, id, self@.bodies.len() as int),
            p <= self.objects.len(),
            forall|i: int| 0 <= i < p ==> (#[trigger] self@.bodies[i]).id < id,
            forall|i: int| p <= i < self@.bodies.len() ==> (#[trigger] self@.bodies[i]).id >= id,
    {
        let n: usize = self.objects.len();
        let mut p: usize = 0;
        while p < n && self.objects[p].get_id() < id
            invariant
                p <= n,
                n == self.objects.len(),
                forall|j: int| 0 <= j < p ==> (#[trigger] self@.bodies[j]).id < id,
            decreases n - p,
        {
            p += 1;
        }
        proof {
            assert forall|i: int| p <= i < self@.bodies.len() implies (#[trigger] self@.bodies[i]).id
                >= id by {
                assert(self@.bodies[p as int].id <= self@.bodies[i].id);
            }
            lemma_rank(self@.bodies, id, p as int, n as int);
        }
        p
    }

    /// Adds a body to the world.  A body with the id zero gets the next free
    /// id; another body keeps its id, which no body of the world may have.
    pub fn add_object(&mut self, object: Body)
        requires
            ascending(old(self)@.bodies),
            old(self)@.admits(object@),
        ensures
            final(self)@ == old(self)@.add(object@),
            ascending(final(self)@.bodies),
            final(self)@.bodies.len() == old(self)@.bodies.len() + 1,
            object@.id == 0 ==> final(self)@.next_id == old(self)@.next_free() + 1,
    {
        let mut object: Body = object;
        let mut object_id: usize = object.get_id();
        if object_id == 0 {
            object_id = self.find_free_id();
            self.next_id = object_id + 1;
            object.set_id(object_id);
        }
        let p: usize = self.position_of(object_id);
        let ghost added: BodyView = object@;
        self.objects.insert(p, object);
        assert(views(self.objects) =~= old(self)@.bodies.insert(p as int, added));
    }

    /// Advances the world by one tick.
    pub fn update(&mut self)
        ensures
            final(self)@ == old(self)@.update(),
            ascending(old(self)@.bodies) ==> ascending(final(self)@.bodies),
            final(self)@.total_mass() == old(self)@.total_mass(),
            final(self)@.bodies.len() == old(self)@.bodies.len(),
            forall|i: int|
                0 <= i < old(self)@.bodies.len() ==> {
                    &&& (#[trigger] final(self)@.bodies[i]).id == old(self)@.bodies[i].id
                    &&& final(self)@.bodies[i].mass == old(self)@.bodies[i].mass
                    &&& final(self)@.bodies[i].is_static == old(self)@.bodies[i].is_static
                    &&& final(self)@.bodies[i].friction == old(self)@.bodies[i].friction
                },
    {
        resolve_all(&mut self.objects);
        advance_each(&mut self.objects, self.gravity, self.timestep);
        proof {
            lemma_update_frame(old(self)@);
            lemma_update_keeps_mass(old(self)@);
        }
    }
}

} // verus!
