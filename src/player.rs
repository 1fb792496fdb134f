use vstd::prelude::*;
use crate::collider::player_shot_collider;
use crate::entity::{Entity, Kind, Transform};
use crate::formation::{offset, sat_i32, ARENA_WIDTH};
use crate::shots::{at, shot_sprite, spawn_outcome};
use crate::world::{World, WorldView};

verus! {

pub const PLAYER_WIDTH: i32 = 12;
pub const PLAYER_HEIGHT: i32 = 8;
/// Height of the player's centre above the bottom of the arena.
pub const PLAYER_FLOOR_GAP: i32 = 45;
/// Lateral displacement of the player per tick.
pub const PLAYER_SPEED: i32 = 1;
/// Room kept between the player and the sides of the arena.
pub const PLAYER_PADDING: i32 = 0;
/// Lives at the start of a session.
pub const START_LIVES: usize = 3;

/// The first index at or after `k` that holds the player.
pub open spec fn player_from(ents: Seq<Entity>, k: int) -> Option<int>
    decreases ents.len() - k,
{
    if k < 0 || k >= ents.len() {
        None
    } else if ents[k].kind is Player {
        Some(k)
    } else {
        player_from(ents, k + 1)
    }
}

pub open spec fn player_index(ents: Seq<Entity>) -> Option<int> {
    player_from(ents, 0)
}

/// A shot of the player is still in flight.
pub open spec fn has_player_shot(ents: Seq<Entity>) -> bool {
    exists|i: int| 0 <= i < ents.len() && (#[trigger] ents[i]).kind is PlayerShot
}

pub open spec fn clamp(v: int, lo: int, hi: int) -> int {
    if v < lo {
        lo
    } else if v > hi {
        hi
    } else {
        v
    }
}

/// Leftmost position of the player's centre.
pub open spec fn player_min_x() -> int {
    PLAYER_WIDTH / 2 + PLAYER_PADDING
}

/// Rightmost position of the player's centre.
pub open spec fn player_max_x() -> int {
    ARENA_WIDTH - PLAYER_WIDTH / 2 - PLAYER_PADDING
}

/// The state after the player moved one tick with the given intents; both
/// intents at once cancel out, and the player stays inside the arena.
pub open spec fn move_player_outcome(v: WorldView, left: bool, right: bool) -> WorldView {
    match player_index(v.entities) {
        Some(i) => {
            let e = v.entities[i];
            let step = (if right { PLAYER_SPEED as int } else { 0 }) - (if left { PLAYER_SPEED as int } else { 0 });
            let x = clamp(e.transform.x + step, player_min_x(), player_max_x());
            WorldView {
                entities: v.entities.update(
                    i,
                    Entity { transform: Transform { x: x as i32, ..e.transform }, ..e },
                ),
                ..v
            }
        },
        None => v,
    }
}

/// The state after the fire intent: the player fires from the top of its
/// ship only when no shot of its own is in flight.
pub open spec fn player_shoot_outcome(v: WorldView, fire: bool) -> WorldView {
    match player_index(v.entities) {
        Some(i) => if fire && !has_player_shot(v.entities) {
            let e = v.entities[i];
            spawn_outcome(
                v,
                Kind::PlayerShot,
                at(e.transform.x, sat_i32(e.transform.y + PLAYER_HEIGHT / 2)),
                shot_sprite(),
                player_shot_collider(),
            )
        } else {
            v
        },
        None => v,
    }
}

impl World {
    /// Index of the player in the store.
    pub fn player(&self) -> (r: Option<usize>)
        ensures
            match r {
                Some(i) => i < self.entities@.len() && player_index(self.entities@) == Some(i as int),
                None => player_index(self.entities@) is None,
            },
    {
        let mut k: usize = 0;
        while k < self.entities.len()
            invariant
                k <= self.entities@.len(),
                player_index(self.entities@) == player_from(self.entities@, k as int),
            decreases self.entities@.len() - k,
        {
            if let Kind::Player = self.entities[k].kind {
                return Some(k);
            }
            k += 1;
        }
        None
    }

    /// Moves the player one tick to the left, to the right, or neither.
    pub fn move_player(&mut self, left: bool, right: bool)
        ensures
            final(self)@ == move_player_outcome(old(self)@, left, right),
    {
        if let Some(i) = self.player() {
            let e = self.entities[i];
            let mut step: i32 = 0;
            if left {
                step = step - PLAYER_SPEED;
            }
            if right {
                step = step + PLAYER_SPEED;
            }
            let lo = PLAYER_WIDTH / 2 + PLAYER_PADDING;
            let hi = ARENA_WIDTH - PLAYER_WIDTH / 2 - PLAYER_PADDING;
            let wanted = e.transform.x as i64 + step as i64;
            let x = if wanted < lo as i64 {
                lo
            } else if wanted > hi as i64 {
                hi
            } else {
                wanted as i32
            };
            self.entities.set(i, Entity { transform: Transform { x, ..e.transform }, ..e });
        }
    }

    /// Whether a shot of the player is in flight.
    pub fn has_player_shot(&self) -> (r: bool)
        ensures
            r == has_player_shot(self.entities@),
    {
        let mut k: usize = 0;
        while k < self.entities.len()
            invariant
                k <= self.entities@.len(),
                forall|j: int| 0 <= j < k ==> !((#[trigger] self.entities@[j]).kind is PlayerShot),
            decreases self.entities@.len() - k,
        {
            if let Kind::PlayerShot = self.entities[k].kind {
                return true;
            }
            k += 1;
        }
        false
    }

    /// Handles the fire intent of the player.
    pub fn player_shoot(&mut self, fire: bool) -> (r: Option<u64>)
        ensures
            final(self)@ == player_shoot_outcome(old(self)@, fire),
    {
        match self.player() {
            Some(i) => {
                if fire && !self.has_player_shot() {
                    let e = self.entities[i];
                    let y = offset(e.transform.y, PLAYER_HEIGHT / 2);
                    self.spawn_player_shots(e.transform.x, y)
                } else {
                    None
                }
            },
            None => None,
        }
    }
}

} // verus!
