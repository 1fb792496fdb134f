use vstd::prelude::*;
use crate::collider::Collider;
use crate::entity::{is_enemy, Entity, Kind, Sprite, Transform};
use crate::formation::{boundary_outcome, move_outcome};
use crate::player::{move_player_outcome, player_from};
use crate::shooters::{formation_ok, is_column_front};
use crate::shots::{animated, flown_down, flown_up, spawn_outcome};
use crate::world::{cell_of, ids_fresh, is_shooter, WorldView};

verus! {

/// Two stores that hold entities of the same kinds, with the same ids, at
/// every index: they differ at most in positions and visuals.
pub open spec fn same_roster(a: Seq<Entity>, b: Seq<Entity>) -> bool {
    &&& a.len() == b.len()
    &&& forall|i: int| 0 <= i < a.len() ==> (#[trigger] a[i]).kind == b[i].kind && a[i].id == b[i].id
}

proof fn lemma_same_roster(a: Seq<Entity>, b: Seq<Entity>)
    requires
        formation_ok(a),
        same_roster(a, b),
    ensures
        formation_ok(b),
{
    assert forall|i: int| 0 <= i < b.len() implies #[trigger] is_enemy(b[i]) == is_enemy(a[i])
        && cell_of(b[i]) == cell_of(a[i]) && is_shooter(b[i]) == is_shooter(a[i]) by {
        assert(a[i].kind == b[i].kind);
    }
    assert forall|i: int| 0 <= i < b.len() && #[trigger] is_enemy(b[i]) implies (is_shooter(b[i])
        <==> is_column_front(b, i)) by {
        assert(is_enemy(a[i]));
        if is_column_front(a, i) {
            assert forall|j: int|
                0 <= j < b.len() && #[trigger] is_enemy(b[j]) && cell_of(b[j]).x == cell_of(b[i]).x
                    implies cell_of(b[j]).y <= cell_of(b[i]).y by {
                assert(is_enemy(a[j]));
            }
        } else {
            let m = choose|m: int|
                !(0 <= m < a.len() && #[trigger] is_enemy(a[m]) && cell_of(a[m]).x == cell_of(a[i]).x
                    ==> cell_of(a[m]).y <= cell_of(a[i]).y);
            assert(is_enemy(b[m]));
        }
    }
    assert forall|i: int, j: int|
        0 <= i < b.len() && 0 <= j < b.len() && i != j && #[trigger] is_enemy(b[i])
            && #[trigger] is_enemy(b[j]) implies cell_of(b[i]) != cell_of(b[j]) by {
        assert(is_enemy(a[i]) && is_enemy(a[j]));
    }
}

/// Motion keeps the formation invariant: a lateral step, the boundary
/// check, the flight and animation of shots, and the player's moves change
/// no entity's kind, role or grid cell.
pub proof fn lemma_motion_keeps_formation(v: WorldView, left: bool, right: bool)
    requires
        formation_ok(v.entities),
    ensures
        formation_ok(move_outcome(v).entities),
        formation_ok(boundary_outcome(v).entities),
        formation_ok(v.entities.map_values(|e: Entity| flown_up(e))),
        formation_ok(v.entities.map_values(|e: Entity| flown_down(e))),
        formation_ok(v.entities.map_values(|e: Entity| animated(e))),
        formation_ok(move_player_outcome(v, left, right).entities),
{
    lemma_same_roster(v.entities, move_outcome(v).entities);
    lemma_same_roster(v.entities, boundary_outcome(v).entities);
    lemma_same_roster(v.entities, v.entities.map_values(|e: Entity| flown_up(e)));
    lemma_same_roster(v.entities, v.entities.map_values(|e: Entity| flown_down(e)));
    lemma_same_roster(v.entities, v.entities.map_values(|e: Entity| animated(e)));
    lemma_player_index(v.entities, 0);
    lemma_same_roster(v.entities, move_player_outcome(v, left, right).entities);
}

/// A store with the same roster as that of a sound state is sound too.
pub(crate) proof fn lemma_roster_sound(v: WorldView, b: Seq<Entity>)
    requires
        formation_ok(v.entities),
        ids_fresh(v),
        same_roster(v.entities, b),
    ensures
        formation_ok(b),
        ids_fresh(WorldView { entities: b, ..v }),
{
    lemma_same_roster(v.entities, b);
    let w = WorldView { entities: b, ..v };
    assert forall|i: int, j: int|
        0 <= i < b.len() && 0 <= j < b.len() && #[trigger] b[i].id == #[trigger] b[j].id implies i == j by {
        assert(v.entities[i].id == b[i].id && v.entities[j].id == b[j].id);
    }
    assert forall|i: int| 0 <= i < b.len() implies (#[trigger] b[i]).id < w.next_id by {
        assert(v.entities[i].id == b[i].id);
    }
}

/// Spawning anything but an enemy keeps the formation invariant.
pub proof fn lemma_spawn_keeps_formation(
    v: WorldView,
    kind: Kind,
    transform: Transform,
    sprite: Option<Sprite>,
    collider: Collider,
)
    requires
        formation_ok(v.entities),
        !(kind is Enemy),
    ensures
        formation_ok(spawn_outcome(v, kind, transform, sprite, collider).entities),
{
    let a = v.entities;
    let b = spawn_outcome(v, kind, transform, sprite, collider).entities;
    if v.next_id < u64::MAX {
        assert forall|i: int| 0 <= i < b.len() && #[trigger] is_enemy(b[i]) implies i < a.len() && b[i]
            == a[i] by {}
        assert forall|i: int| 0 <= i < b.len() && #[trigger] is_enemy(b[i]) implies (is_shooter(b[i])
            <==> is_column_front(b, i)) by {
            assert(is_enemy(a[i]));
            if is_column_front(a, i) {
                assert forall|j: int|
                    0 <= j < b.len() && #[trigger] is_enemy(b[j]) && cell_of(b[j]).x == cell_of(b[i]).x
                        implies cell_of(b[j]).y <= cell_of(b[i]).y by {
                    assert(is_enemy(a[j]));
                }
            } else {
                let m = choose|m: int|
                    !(0 <= m < a.len() && #[trigger] is_enemy(a[m]) && cell_of(a[m]).x == cell_of(a[i]).x
                        ==> cell_of(a[m]).y <= cell_of(a[i]).y);
                assert(b[m] == a[m]);
                assert(is_enemy(b[m]));
            }
        }
        assert forall|i: int, j: int|
            0 <= i < b.len() && 0 <= j < b.len() && i != j && #[trigger] is_enemy(b[i])
                && #[trigger] is_enemy(b[j]) implies cell_of(b[i]) != cell_of(b[j]) by {
            assert(is_enemy(a[i]) && is_enemy(a[j]));
        }
    }
}

pub(crate) proof fn lemma_player_index(ents: Seq<Entity>, k: int)
    ensures
        player_from(ents, k) matches Some(i) ==> 0 <= i < ents.len() && ents[i].kind is Player,
    decreases ents.len() - k,
{
    if 0 <= k < ents.len() && !(ents[k].kind is Player) {
        lemma_player_index(ents, k + 1);
    }
}

} // verus!
