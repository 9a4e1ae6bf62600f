//! Anchor tables: named points of a body that move with it.

use vstd::prelude::*;
use std::collections::HashMap;
use vstd::std_specs::iter::IteratorSpec;
use crate::scalar::Scalar;
use crate::vec2d::Vec2D;
use crate::vec2d::Vector;

verus! {

broadcast use vstd::std_specs::hash::group_hash_axioms;

/// What an anchor table stands for: the position of each anchor, by its id.
pub open spec fn anchors_view(anchors: HashMap<usize, Vec2D>) -> Map<usize, Vector> {
    Map::new(|id: usize| anchors@.contains_key(id), |id: usize| anchors@[id]@)
}

/// The table with every anchor moved by `d`.
pub open spec fn shift_anchors(anchors: Map<usize, Vector>, d: Vector) -> Map<usize, Vector> {
    Map::new(|id: usize| anchors.contains_key(id), |id: usize| anchors[id].plus(d))
}

/// The table with every anchor turned about `pivot` by the raw angle `angle`.
pub open spec fn turn_anchors(anchors: Map<usize, Vector>, angle: int, pivot: Vector) -> Map<
    usize,
    Vector,
> {
    Map::new(|id: usize| anchors.contains_key(id), |id: usize| anchors[id].rotated(angle, pivot))
}

/// The ids of a table, each once.
pub fn anchor_ids(anchors: &HashMap<usize, Vec2D>) -> (ids: Vec<usize>)
    ensures
        ids@.no_duplicates(),
        forall|id: usize| #[trigger] ids@.contains(id) <==> anchors@.contains_key(id),
{
    let mut ids: Vec<usize> = Vec::new();
    for id in it: anchors.keys()
        invariant
            ids@ == it.seq().take(it.index()).unref(),
    {
        ids.push(*id);
    }
    proof {
        let all = vstd::std_specs::hash::spec_keys_iter(anchors).remaining();
        assert(ids@ =~= all.unref());
        assert(all.unref().to_set() == anchors@.dom());
        assert forall|id: usize| ids@.contains(id) <==> anchors@.contains_key(id) by {
            assert(all.unref().to_set().contains(id) <==> all.unref().contains(id));
        }
        assert forall|i: int, j: int| 0 <= i < ids@.len() && 0 <= j < ids@.len() && i != j implies ids@[i] != ids@[j] by {
            assert(all[i] != all[j]);
        }
    }
    ids
}

/// Moves every anchor by `d`.
pub fn move_anchors(anchors: &mut HashMap<usize, Vec2D>, d: &Vec2D)
    ensures
        anchors_view(*final(anchors)) == shift_anchors(anchors_view(*old(anchors)), d@),
{
    let ghost before: Map<usize, Vec2D> = anchors@;
    let ids: Vec<usize> = anchor_ids(anchors);
    let mut i: usize = 0;
    while i < ids.len()
        invariant
            i <= ids.len(),
            ids@.no_duplicates(),
            forall|id: usize| ids@.contains(id) <==> before.contains_key(id),
            anchors@.dom() == before.dom(),
            forall|j: int| 0 <= j < i ==> (#[trigger] anchors@[ids@[j]])@ == before[ids@[j]]@.plus(d@),
            forall|j: int| i <= j < ids.len() ==> #[trigger] anchors@[ids@[j]] == before[ids@[j]],
        decreases ids.len() - i,
    {
        let id: usize = ids[i];
        assert(ids@.contains(id));
        let p: Vec2D = *anchors.get(&id).unwrap();
        anchors.insert(id, p.add(d));
        assert(anchors@.dom() =~= before.dom());
        i += 1;
    }
    assert forall|id: usize| before.contains_key(id) implies (#[trigger] anchors@[id])@
        == before[id]@.plus(d@) by {
        let j = choose|j: int| 0 <= j < ids@.len() && ids@[j] == id;
        assert(anchors@[ids@[j]]@ == before[ids@[j]]@.plus(d@));
    }
    assert(anchors_view(*anchors) =~= shift_anchors(anchors_view(*old(anchors)), d@));
}

/// Turns every anchor about `pivot` by `angle`.
pub fn rotate_anchors(anchors: &mut HashMap<usize, Vec2D>, angle: Scalar, pivot: &Vec2D)
    ensures
        anchors_view(*final(anchors)) == turn_anchors(
            anchors_view(*old(anchors)),
            angle@,
            pivot@,
        ),
{
    let ghost before: Map<usize, Vec2D> = anchors@;
    let ids: Vec<usize> = anchor_ids(anchors);
    let mut i: usize = 0;
    while i < ids.len()
        invariant
            i <= ids.len(),
            ids@.no_duplicates(),
            forall|id: usize| ids@.contains(id) <==> before.contains_key(id),
            anchors@.dom() == before.dom(),
            forall|j: int|
                0 <= j < i ==> (#[trigger] anchors@[ids@[j]])@ == before[ids@[j]]@.rotated(
                    angle@,
                    pivot@,
                ),
            forall|j: int| i <= j < ids.len() ==> #[trigger] anchors@[ids@[j]] == before[ids@[j]],
        decreases ids.len() - i,
    {
        let id: usize = ids[i];
        assert(ids@.contains(id));
        let p: Vec2D = *anchors.get(&id).unwrap();
        anchors.insert(id, p.rotated(angle, pivot));
        assert(anchors@.dom() =~= before.dom());
        i += 1;
    }
    assert forall|id: usize| before.contains_key(id) implies (#[trigger] anchors@[id])@
        == before[id]@.rotated(angle@, pivot@) by {
        let j = choose|j: int| 0 <= j < ids@.len() && ids@[j] == id;
        assert(anchors@[ids@[j]]@ == before[ids@[j]]@.rotated(angle@, pivot@));
    }
    assert(anchors_view(*anchors) =~= turn_anchors(anchors_view(*old(anchors)), angle@, pivot@));
}

/// Copies every anchor of `from` into `into`; an anchor of `from` replaces one
/// of `into` with the same id.
pub fn merge_anchors(into: &mut HashMap<usize, Vec2D>, from: &HashMap<usize, Vec2D>)
    ensures
        anchors_view(*final(into)) == anchors_view(*old(into)).union_prefer_right(
            anchors_view(*from),
        ),
{
    let ghost before: Map<usize, Vec2D> = into@;
    let ids: Vec<usize> = anchor_ids(from);
    let mut i: usize = 0;
    assert forall|j: int| 0 <= j < ids@.len() implies from@.contains_key(#[trigger] ids@[j]) by {
        assert(ids@.contains(ids@[j]));
    }
    while i < ids.len()
        invariant
            i <= ids.len(),
            forall|j: int| 0 <= j < ids@.len() ==> from@.contains_key(#[trigger] ids@[j]),
            forall|id: usize| before.contains_key(id) ==> #[trigger] into@.contains_key(id),
            forall|id: usize|
                #[trigger] into@.contains_key(id) ==> before.contains_key(id)
                    || from@.contains_key(id),
            forall|j: int|
                0 <= j < i ==> into@.contains_key(#[trigger] ids@[j]) && into@[ids@[j]]
                    == from@[ids@[j]],
            forall|id: usize|
                before.contains_key(id) && !from@.contains_key(id) ==> #[trigger] into@[id]
                    == before[id],
        decreases ids.len() - i,
    {
        let id: usize = ids[i];
        assert(from@.contains_key(ids@[i as int]));
        let p: Vec2D = *from.get(&id).unwrap();
        into.insert(id, p);
        i += 1;
    }
    assert forall|id: usize| #[trigger] from@.contains_key(id) implies into@.contains_key(id)
        && into@[id] == from@[id] by {
        assert(ids@.contains(id));
        let j = choose|j: int| 0 <= j < ids@.len() && ids@[j] == id;
        assert(into@.contains_key(ids@[j]) && into@[ids@[j]] == from@[ids@[j]]);
    }
    let ghost merged = anchors_view(*old(into)).union_prefer_right(anchors_view(*from));
    assert forall|id: usize| anchors_view(*into).contains_key(id) <==> merged.contains_key(
        id,
    ) by {
        assert(into@.contains_key(id) <==> before.contains_key(id) || from@.contains_key(id));
    }
    assert forall|id: usize| anchors_view(*into).contains_key(id) implies anchors_view(
        *into,
    )[id] == merged[id] by {
        if !from@.contains_key(id) {
            assert(into@[id] == before[id]);
        }
    }
    assert(anchors_view(*into) =~= merged);
}

} // verus!
