//! Actors: the arena records combining motion state, collider and world
//! position.

use vstd::prelude::*;
use crate::motion::{ActorKind, Mover};

verus! {

/// Axis-aligned collider extent, in the same (caller-chosen) units as the
/// projected world positions.
#[derive(Clone, Copy, PartialEq, Eq, Structural, Debug)]
pub struct Collider {
    pub width: u32,
    pub height: u32,
}

/// One arena slot: an actor's motion record, collider, externally projected
/// world position, and liveness. Despawned actors stay in the arena with
/// `alive == false` until the end-of-tick sweep purges them, which is what
/// lets a dangling reservation block a cell for exactly one tick.
#[derive(Clone, Copy, PartialEq, Eq, Structural, Debug)]
pub struct Actor {
    pub core: Mover,
    pub collider: Collider,
    /// Projected world position; written by the external projection stage.
    pub x: i64,
    pub y: i64,
    pub alive: bool,
}

/// Some slot carries this id.
pub open spec fn has_id(s: Seq<Actor>, id: u64) -> bool {
    exists|i: int| 0 <= i < s.len() && s[i].core.id == id
}

/// `i` is the first slot carrying `id`.
pub open spec fn is_first_with_id(s: Seq<Actor>, id: u64, i: int) -> bool {
    0 <= i < s.len() && s[i].core.id == id && (forall|j: int| 0 <= j < i ==> s[j].core.id != id)
}

/// Index of the first slot carrying `id` (meaningful when `has_id`).
pub open spec fn idx_with_id(s: Seq<Actor>, id: u64) -> int {
    choose|i: int| is_first_with_id(s, id, i)
}

/// The actor with the given id, if any.
pub open spec fn actor_with_id(s: Seq<Actor>, id: u64) -> Option<Actor> {
    if has_id(s, id) {
        Some(s[idx_with_id(s, id)])
    } else {
        None
    }
}

/// No id appears in two slots.
pub open spec fn ids_unique(s: Seq<Actor>) -> bool {
    forall|i: int, j: int| 0 <= i < j < s.len() ==> s[i].core.id != s[j].core.id
}

/// A live controlled actor in slot `i`, with no live controlled actor before
/// it.
pub open spec fn is_first_controlled(s: Seq<Actor>, i: int) -> bool {
    &&& 0 <= i < s.len()
    &&& s[i].alive
    &&& s[i].core.kind == ActorKind::Controlled
    &&& forall|j: int|
        0 <= j < i ==> !(s[j].alive && s[j].core.kind == ActorKind::Controlled)
}

pub open spec fn some_controlled(s: Seq<Actor>) -> bool {
    exists|i: int| 0 <= i < s.len() && s[i].alive && s[i].core.kind == ActorKind::Controlled
}

pub open spec fn controlled_idx(s: Seq<Actor>) -> int {
    choose|i: int| is_first_controlled(s, i)
}

/// The live controlled actor the detectors work with, if any.
pub open spec fn controlled_actor(s: Seq<Actor>) -> Option<Actor> {
    if some_controlled(s) {
        Some(s[controlled_idx(s)])
    } else {
        None
    }
}

pub proof fn lemma_first_with_id_exists(s: Seq<Actor>, id: u64)
    requires
        has_id(s, id),
    ensures
        is_first_with_id(s, id, idx_with_id(s, id)),
{
    let k = choose|k: int| 0 <= k < s.len() && s[k].core.id == id;
    lemma_first_with_id_from(s, id, k);
    assert(exists|i: int| is_first_with_id(s, id, i));
}

proof fn lemma_first_with_id_from(s: Seq<Actor>, id: u64, k: int)
    requires
        0 <= k < s.len(),
        s[k].core.id == id,
    ensures
        exists|i: int| is_first_with_id(s, id, i),
    decreases k,
{
    if forall|j: int| 0 <= j < k ==> s[j].core.id != id {
        assert(is_first_with_id(s, id, k));
    } else {
        let j = choose|j: int| 0 <= j < k && s[j].core.id == id;
        lemma_first_with_id_from(s, id, j);
    }
}

pub proof fn lemma_first_controlled_exists(s: Seq<Actor>)
    requires
        some_controlled(s),
    ensures
        is_first_controlled(s, controlled_idx(s)),
{
    let k = choose|k: int|
        0 <= k < s.len() && s[k].alive && s[k].core.kind == ActorKind::Controlled;
    lemma_first_controlled_from(s, k);
    assert(exists|i: int| is_first_controlled(s, i));
}

proof fn lemma_first_controlled_from(s: Seq<Actor>, k: int)
    requires
        0 <= k < s.len(),
        s[k].alive,
        s[k].core.kind == ActorKind::Controlled,
    ensures
        exists|i: int| is_first_controlled(s, i),
    decreases k,
{
    if forall|j: int| 0 <= j < k ==> !(s[j].alive && s[j].core.kind == ActorKind::Controlled) {
        assert(is_first_controlled(s, k));
    } else {
        let j = choose|j: int|
            0 <= j < k && s[j].alive && s[j].core.kind == ActorKind::Controlled;
        lemma_first_controlled_from(s, j);
    }
}

/// Find the first arena slot carrying `id`.
pub fn find_actor(actors: &Vec<Actor>, id: u64) -> (r: Option<usize>)
    ensures
        match r {
            Some(i) => is_first_with_id(actors@, id, i as int) && actor_with_id(actors@, id)
                == Some(actors@[i as int]),
            None => !has_id(actors@, id),
        },
{
    let n: usize = actors.len();
    let mut i: usize = 0;
    while i < n
        invariant
            n == actors@.len(),
            0 <= i <= n,
            forall|j: int| 0 <= j < i ==> actors@[j].core.id != id,
        decreases n - i,
    {
        if actors[i].core.id == id {
            proof {
                assert(is_first_with_id(actors@, id, i as int));
                lemma_first_with_id_exists(actors@, id);
            }
            return Some(i);
        }
        i = i + 1;
    }
    proof {
        if has_id(actors@, id) {
            let k = choose|k: int| 0 <= k < actors@.len() && actors@[k].core.id == id;
            assert(false);
        }
    }
    None
}

/// Find the first live controlled actor.
pub fn find_controlled(actors: &Vec<Actor>) -> (r: Option<usize>)
    ensures
        match r {
            Some(i) => is_first_controlled(actors@, i as int) && controlled_actor(actors@)
                == Some(actors@[i as int]),
            None => !some_controlled(actors@),
        },
{
    let n: usize = actors.len();
    let mut i: usize = 0;
    while i < n
        invariant
            n == actors@.len(),
            0 <= i <= n,
            forall|j: int|
                0 <= j < i ==> !(actors@[j].alive && actors@[j].core.kind
                    == ActorKind::Controlled),
        decreases n - i,
    {
        let is_ctrl = match actors[i].core.kind {
            ActorKind::Controlled => true,
            _ => false,
        };
        if actors[i].alive && is_ctrl {
            proof {
                assert(is_first_controlled(actors@, i as int));
                lemma_first_controlled_exists(actors@);
            }
            return Some(i);
        }
        i = i + 1;
    }
    proof {
        if some_controlled(actors@) {
            let k = choose|k: int|
                0 <= k < actors@.len() && actors@[k].alive && actors@[k].core.kind
                    == ActorKind::Controlled;
            assert(false);
        }
    }
    None
}


/// Ids of the despawned slots, in slot order.
pub open spec fn dead_ids_of(s: Seq<Actor>) -> Seq<u64>
    decreases s.len(),
{
    if s.len() == 0 {
        Seq::empty()
    } else {
        let pre = dead_ids_of(s.drop_last());
        if s.last().alive {
            pre
        } else {
            pre.push(s.last().core.id)
        }
    }
}

/// The live slots, in slot order.
pub open spec fn live_only(s: Seq<Actor>) -> Seq<Actor>
    decreases s.len(),
{
    if s.len() == 0 {
        Seq::empty()
    } else {
        let pre = live_only(s.drop_last());
        if s.last().alive {
            pre.push(s.last())
        } else {
            pre
        }
    }
}

/// Every purge survivor is one of the original slots, live.
pub proof fn lemma_live_only_membership(s: Seq<Actor>)
    ensures
        forall|a: Actor| #[trigger] live_only(s).contains(a) ==> s.contains(a) && a.alive,
    decreases s.len(),
{
    if s.len() == 0 {
    } else {
        let pre = s.drop_last();
        lemma_live_only_membership(pre);
        let r = live_only(s);
        assert forall|a: Actor| #[trigger] r.contains(a) implies s.contains(a) && a.alive by {
            let t = choose|t: int| 0 <= t < r.len() && r[t] == a;
            if t < live_only(pre).len() {
                assert(live_only(pre)[t] == a);
                assert(live_only(pre).contains(a));
                let k = choose|k: int| 0 <= k < pre.len() && pre[k] == a;
                assert(s[k] == a);
            } else {
                assert(r[t] == s.last());
                assert(s[s.len() - 1] == a);
            }
        }
    }
}

/// The purge keeps ids unique.
pub proof fn lemma_live_only_unique(s: Seq<Actor>)
    requires
        ids_unique(s),
    ensures
        ids_unique(live_only(s)),
    decreases s.len(),
{
    if s.len() == 0 {
    } else {
        let pre = s.drop_last();
        assert(ids_unique(pre)) by {
            assert(forall|i: int| 0 <= i < pre.len() ==> pre[i] == s[i]);
        }
        lemma_live_only_unique(pre);
        lemma_live_only_membership(pre);
        let r = live_only(s);
        if s.last().alive {
            assert forall|i: int, j: int| 0 <= i < j < r.len() implies r[i].core.id
                != r[j].core.id by {
                if j < live_only(pre).len() {
                } else {
                    assert(r[j] == s.last());
                    assert(live_only(pre).contains(r[i])) by {
                        assert(live_only(pre)[i] == r[i]);
                    }
                    assert(pre.contains(r[i]));
                    let k = choose|k: int| 0 <= k < pre.len() && pre[k] == r[i];
                    assert(s[k] == r[i]);
                    assert(s[k].core.id != s[s.len() - 1].core.id);
                }
            }
        }
    }
}

} // verus!
