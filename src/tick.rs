use vstd::prelude::*;
use crate::collision::collision_hits;
use crate::collider::{enemy_shot_collider, player_shot_collider};
use crate::entity::{Entity, Kind};
use crate::formation::{formation_fires, sat_i32};
use crate::motion::{lemma_player_index, lemma_roster_sound, lemma_spawn_keeps_formation};
use crate::player::{player_index, PLAYER_HEIGHT};
use crate::shooters::{formation_ok, lemma_shooters_after_hits};
use crate::shots::{at, muzzle, shot_sprite};
use crate::formation::{advance_outcome, boundary_outcome};
use crate::player::{move_player_outcome, player_shoot_outcome};
use crate::shots::{fire_outcome, flown_down, flown_up, shoot_fires, shoot_timed, shooter_indices};
use crate::world::{
    aged, after_hits, ids_fresh, lemma_ids_after_hits, lemma_spawn_keeps_ids, notifications,
    EnemyDirectionChanged, ScoreChanged, World, WorldView,
};

verus! {

/// What the player asks for on one tick.
#[derive(Clone, Copy, Debug, PartialEq, Eq, Structural)]
pub struct TickInput {
    pub left: bool,
    pub right: bool,
    pub fire: bool,
}

/// What one tick brought about that observers care for.
#[derive(Clone, Copy, Debug, PartialEq, Eq, Structural)]
pub struct TickReport {
    pub score_changed: Option<ScoreChanged>,
    pub direction_changed: Option<EnemyDirectionChanged>,
    pub enemy_shot: Option<u64>,
}

/// The state of a tick up to the enemies' fire: the player moves and fires,
/// shots fly, one collision pass is resolved, the formation advances and
/// the boundary is checked, in that order.
pub open spec fn tick_until_fire(v: WorldView, input: TickInput, delta_ms: u64) -> WorldView {
    let moved = move_player_outcome(v, input.left, input.right);
    let fired = player_shoot_outcome(moved, input.fire);
    let up = WorldView { entities: fired.entities.map_values(|e: Entity| flown_up(e)), ..fired };
    let down = WorldView { entities: up.entities.map_values(|e: Entity| flown_down(e)), ..up };
    let hit = after_hits(down, notifications(collision_hits(down.entities)));
    boundary_outcome(advance_outcome(hit, delta_ms))
}

/// The explosions of `v` after `delta_ms`.
pub open spec fn age_outcome(v: WorldView, delta_ms: u64) -> WorldView {
    WorldView { temporaries: aged(v.temporaries, delta_ms), ..v }
}

/// A whole tick keeps the formation invariant and fresh ids, whichever
/// shooter the enemies' fire picks: after every tick, each column with a
/// survivor still has exactly one shooter, its front survivor.
pub proof fn lemma_tick_keeps_invariants(v: WorldView, input: TickInput, delta_ms: u64, k: int)
    requires
        formation_ok(v.entities),
        ids_fresh(v),
    ensures
        formation_ok(age_outcome(shoot_timed(tick_until_fire(v, input, delta_ms), delta_ms), delta_ms).entities),
        ids_fresh(age_outcome(shoot_timed(tick_until_fire(v, input, delta_ms), delta_ms), delta_ms)),
        formation_ok(
            age_outcome(fire_outcome(shoot_timed(tick_until_fire(v, input, delta_ms), delta_ms), k), delta_ms).entities,
        ),
        ids_fresh(age_outcome(fire_outcome(shoot_timed(tick_until_fire(v, input, delta_ms), delta_ms), k), delta_ms)),
{
    let moved = move_player_outcome(v, input.left, input.right);
    lemma_player_index(v.entities, 0);
    lemma_roster_sound(v, moved.entities);
    let fired = player_shoot_outcome(moved, input.fire);
    if fired != moved {
        let i = player_index(moved.entities)->0;
        let e = moved.entities[i];
        let t = at(e.transform.x, sat_i32(e.transform.y + PLAYER_HEIGHT / 2));
        lemma_spawn_keeps_formation(moved, Kind::PlayerShot, t, shot_sprite(), player_shot_collider());
        lemma_spawn_keeps_ids(moved, Kind::PlayerShot, t, shot_sprite(), player_shot_collider());
    }
    let up = WorldView { entities: fired.entities.map_values(|e: Entity| flown_up(e)), ..fired };
    lemma_roster_sound(fired, up.entities);
    let down = WorldView { entities: up.entities.map_values(|e: Entity| flown_down(e)), ..up };
    lemma_roster_sound(up, down.entities);
    let ids = notifications(collision_hits(down.entities));
    let hit = after_hits(down, ids);
    lemma_shooters_after_hits(down, ids);
    lemma_ids_after_hits(down, ids);
    let adv = advance_outcome(hit, delta_ms);
    if formation_fires(hit, delta_ms) {
        let reset = WorldView { move_elapsed: 0, ..hit };
        lemma_roster_sound(reset, adv.entities);
    }
    let turned = boundary_outcome(adv);
    lemma_roster_sound(adv, turned.entities);
    let timed = shoot_timed(turned, delta_ms);
    assert(timed.entities == turned.entities);
    let list = shooter_indices(timed.entities);
    if 0 <= k < list.len() {
        let m = muzzle(timed.entities[list[k]]);
        lemma_spawn_keeps_formation(timed, Kind::EnemyShot, m, shot_sprite(), enemy_shot_collider());
        lemma_spawn_keeps_ids(timed, Kind::EnemyShot, m, shot_sprite(), enemy_shot_collider());
    }
}

impl World {
    /// One fixed simulation tick of `delta_ms`: the player's move and fire,
    /// the flight of shots, collision detection and the hit reactions, the
    /// formation's step and boundary check, the enemies' fire and the
    /// explosions' expiry, each seeing what the ones before it wrote.
    pub fn tick(&mut self, input: TickInput, delta_ms: u64) -> (r: TickReport)
        ensures
            ({
                let before_fire = tick_until_fire(old(self)@, input, delta_ms);
                let timed = shoot_timed(before_fire, delta_ms);
                let n = shooter_indices(before_fire.entities).len();
                &&& shoot_fires(before_fire, delta_ms) && n > 0 ==> exists|k: int|
                    0 <= k < n && final(self)@ == #[trigger] age_outcome(fire_outcome(timed, k), delta_ms)
                &&& !(shoot_fires(before_fire, delta_ms) && n > 0) ==> final(self)@ == age_outcome(timed, delta_ms)
            }),
    {
        let ghost v0 = self@;
        self.move_player(input.left, input.right);
        self.player_shoot(input.fire);
        self.move_player_shots();
        self.move_enemy_shots();
        let score_changed = self.resolve_collisions();
        self.advance_formation(delta_ms);
        let direction_changed = self.swap_enemy_direction();
        assert(self@ == tick_until_fire(v0, input, delta_ms));
        let ghost before_fire = self@;
        let enemy_shot = self.shoot(delta_ms);
        let ghost after_fire = self@;
        self.update_temporaries(delta_ms);
        assert(self@ == age_outcome(after_fire, delta_ms));
        TickReport { score_changed, direction_changed, enemy_shot }
    }
}

} // verus!
