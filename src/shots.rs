use vstd::prelude::*;
use crate::collider::{enemy_shot_collider, player_shot_collider, Collider};
use crate::entity::{Entity, Kind, Size, Sprite, Transform};
use crate::formation::{offset, sat_i32, ENEMY_HEIGHT};
use crate::world::{is_shooter, World, WorldView};

verus! {

/// Vertical displacement of a player's shot per tick.
pub const PLAYER_PROJECTILE_SPEED: i32 = 3;
/// Vertical displacement of an enemy's shot per tick.
pub const ENEMY_PROJECTILE_SPEED: i32 = 3;
/// Time between two enemy shots, in milliseconds.
pub const SHOOT_DELAY_MS: u64 = 1000;

/// The state after a new entity joins the store under the next free id; when
/// no id is left, nothing changes.
pub open spec fn spawn_outcome(
    v: WorldView,
    kind: Kind,
    transform: Transform,
    sprite: Option<Sprite>,
    collider: Collider,
) -> WorldView {
    if v.next_id < u64::MAX {
        WorldView {
            entities: v.entities.push(Entity { id: v.next_id, kind, transform, sprite, collider }),
            next_id: (v.next_id + 1) as u64,
            ..v
        }
    } else {
        v
    }
}

/// The sprite of a shot: a one-by-four box on its first frame.
pub open spec fn shot_sprite() -> Option<Sprite> {
    Some(Sprite { custom_size: Some(Size { w: 1, h: 4 }), image_size: None, frame: 0 })
}

pub open spec fn at(x: i32, y: i32) -> Transform {
    Transform { x, y, scale_x: 1, scale_y: 1 }
}

/// Indices of the shooters among the first `n` entities, in storage order.
pub open spec fn shooters_upto(ents: Seq<Entity>, n: int) -> Seq<int>
    decreases n,
{
    if n <= 0 {
        Seq::empty()
    } else if is_shooter(ents[n - 1]) {
        shooters_upto(ents, n - 1).push(n - 1)
    } else {
        shooters_upto(ents, n - 1)
    }
}

pub open spec fn shooter_indices(ents: Seq<Entity>) -> Seq<int> {
    shooters_upto(ents, ents.len() as int)
}

/// Where the shot of the shooter `e` starts: half an enemy below its centre.
pub open spec fn muzzle(e: Entity) -> Transform {
    at(e.transform.x, sat_i32(e.transform.y - ENEMY_HEIGHT / 2))
}

/// The state after the shooter with rank `choice` among the shooters fires;
/// a rank past the last shooter changes nothing.
pub open spec fn fire_outcome(v: WorldView, choice: int) -> WorldView {
    let list = shooter_indices(v.entities);
    if 0 <= choice < list.len() {
        spawn_outcome(
            v,
            Kind::EnemyShot,
            muzzle(v.entities[list[choice]]),
            shot_sprite(),
            enemy_shot_collider(),
        )
    } else {
        v
    }
}

/// The fire timer reaches its period within `delta_ms`.
pub open spec fn shoot_fires(v: WorldView, delta_ms: u64) -> bool {
    v.shoot_elapsed + delta_ms >= SHOOT_DELAY_MS
}

/// The state after the fire timer ran for `delta_ms`.
pub open spec fn shoot_timed(v: WorldView, delta_ms: u64) -> WorldView {
    WorldView {
        shoot_elapsed: if shoot_fires(v, delta_ms) { 0 } else { (v.shoot_elapsed + delta_ms) as u64 },
        ..v
    }
}

/// A player's shot after one tick of flight; other entities stay.
pub open spec fn flown_up(e: Entity) -> Entity {
    match e.kind {
        Kind::PlayerShot => Entity {
            transform: Transform { y: sat_i32(e.transform.y + PLAYER_PROJECTILE_SPEED), ..e.transform },
            ..e
        },
        _ => e,
    }
}

/// An enemy's shot after one tick of flight; other entities stay.
pub open spec fn flown_down(e: Entity) -> Entity {
    match e.kind {
        Kind::EnemyShot => Entity {
            transform: Transform { y: sat_i32(e.transform.y - ENEMY_PROJECTILE_SPEED), ..e.transform },
            ..e
        },
        _ => e,
    }
}

/// An enemy's shot on its next animation frame, of four; other entities stay.
pub open spec fn animated(e: Entity) -> Entity {
    match (e.kind, e.sprite) {
        (Kind::EnemyShot, Some(s)) => Entity {
            sprite: Some(Sprite { frame: ((s.frame + 1) % 4) as u8, ..s }),
            ..e
        },
        _ => e,
    }
}

/// Relies on `rand::Rng::random_range` on `rand::rng()`: a value drawn from
/// the half-open range `0..n`, which it panics on only when empty.
#[verifier::external_body]
fn random_index(n: usize) -> (r: usize)
    requires
        n > 0,
    ensures
        r < n,
{
    rand::Rng::random_range(&mut rand::rng(), 0..n)
}

fn fly_up(e: Entity) -> (r: Entity)
    ensures
        r == flown_up(e),
{
    match e.kind {
        Kind::PlayerShot => Entity {
            transform: Transform { y: offset(e.transform.y, PLAYER_PROJECTILE_SPEED), ..e.transform },
            ..e
        },
        _ => e,
    }
}

fn fly_down(e: Entity) -> (r: Entity)
    ensures
        r == flown_down(e),
{
    match e.kind {
        Kind::EnemyShot => Entity {
            transform: Transform { y: offset(e.transform.y, -ENEMY_PROJECTILE_SPEED), ..e.transform },
            ..e
        },
        _ => e,
    }
}

fn animate(e: Entity) -> (r: Entity)
    ensures
        r == animated(e),
{
    match (e.kind, e.sprite) {
        (Kind::EnemyShot, Some(s)) => Entity {
            sprite: Some(Sprite { frame: ((s.frame as u16 + 1) % 4) as u8, ..s }),
            ..e
        },
        _ => e,
    }
}

impl World {
    /// Adds an entity under the next free id and returns that id; when no id
    /// is left it adds nothing.
    pub fn spawn(&mut self, kind: Kind, transform: Transform, sprite: Option<Sprite>, collider: Collider) -> (r: Option<u64>)
        ensures
            final(self)@ == spawn_outcome(old(self)@, kind, transform, sprite, collider),
            r == if old(self).next_id < u64::MAX { Some(old(self).next_id) } else { None::<u64> },
    {
        if self.next_id < u64::MAX {
            let id = self.next_id;
            self.entities.push(Entity { id, kind, transform, sprite, collider });
            self.next_id = id + 1;
            Some(id)
        } else {
            None
        }
    }

    /// A player's shot starting at `(x, y)`.
    pub fn spawn_player_shots(&mut self, x: i32, y: i32) -> (r: Option<u64>)
        ensures
            final(self)@ == spawn_outcome(old(self)@, Kind::PlayerShot, at(x, y), shot_sprite(), player_shot_collider()),
    {
        let sprite = Some(Sprite { custom_size: Some(Size { w: 1, h: 4 }), image_size: None, frame: 0 });
        self.spawn(Kind::PlayerShot, Transform { x, y, scale_x: 1, scale_y: 1 }, sprite, Collider::player_shot_layer())
    }

    /// An enemy's shot starting at `(x, y)`.
    pub fn spawn_enemy_shots(&mut self, x: i32, y: i32) -> (r: Option<u64>)
        ensures
            final(self)@ == spawn_outcome(old(self)@, Kind::EnemyShot, at(x, y), shot_sprite(), enemy_shot_collider()),
    {
        let sprite = Some(Sprite { custom_size: Some(Size { w: 1, h: 4 }), image_size: None, frame: 0 });
        self.spawn(Kind::EnemyShot, Transform { x, y, scale_x: 1, scale_y: 1 }, sprite, Collider::enemy_shot_layer())
    }

    /// Indices of the enemies that may fire, in storage order.
    pub fn shooters(&self) -> (r: Vec<usize>)
        ensures
            r@.len() == shooter_indices(self.entities@).len(),
            forall|k: int| 0 <= k < r@.len() ==> r@[k] as int == #[trigger] shooter_indices(self.entities@)[k],
            forall|k: int| 0 <= k < r@.len() ==> #[trigger] r@[k] < self.entities@.len(),
    {
        let mut list: Vec<usize> = Vec::new();
        let mut n: usize = 0;
        while n < self.entities.len()
            invariant
                n <= self.entities@.len(),
                list@.len() == shooters_upto(self.entities@, n as int).len(),
                forall|k: int| 0 <= k < list@.len() ==> list@[k] as int == #[trigger] shooters_upto(self.entities@, n as int)[k],
                forall|k: int| 0 <= k < list@.len() ==> #[trigger] list@[k] < n,
            decreases self.entities@.len() - n,
        {
            if let Kind::Enemy { role: crate::entity::Role::Shooter, .. } = self.entities[n].kind {
                list.push(n);
            }
            n += 1;
        }
        list
    }

    /// The shooter with rank `choice` among the shooters fires a shot from
    /// half an enemy below its centre; a rank past the last changes nothing.
    pub fn fire_from(&mut self, choice: usize) -> (r: Option<u64>)
        ensures
            final(self)@ == fire_outcome(old(self)@, choice as int),
    {
        let list = self.shooters();
        if choice < list.len() {
            let e = self.entities[list[choice]];
            let y = offset(e.transform.y, -(ENEMY_HEIGHT / 2));
            self.spawn_enemy_shots(e.transform.x, y)
        } else {
            None
        }
    }

    /// Runs the enemies' fire timer for `delta_ms`. When it fires, one shooter
    /// drawn at random shoots; with no shooter left the tick does nothing more.
    pub fn shoot(&mut self, delta_ms: u64) -> (r: Option<u64>)
        ensures
            shoot_fires(old(self)@, delta_ms) && shooter_indices(old(self).entities@).len() > 0
                ==> exists|k: int|
                0 <= k < shooter_indices(old(self).entities@).len() && final(self)@
                    == #[trigger] fire_outcome(shoot_timed(old(self)@, delta_ms), k),
            !(shoot_fires(old(self)@, delta_ms) && shooter_indices(old(self).entities@).len() > 0)
                ==> final(self)@ == shoot_timed(old(self)@, delta_ms),
    {
        let fired = self.shoot_timer.tick(SHOOT_DELAY_MS, delta_ms);
        let ghost timed = self@;
        if !fired {
            return None;
        }
        let n = self.shooters().len();
        if n == 0 {
            return None;
        }
        let k = random_index(n);
        let r = self.fire_from(k);
        assert(self@ == fire_outcome(timed, k as int));
        r
    }

    /// Moves every player's shot up by one tick.
    pub fn move_player_shots(&mut self)
        ensures
            final(self)@ == (WorldView {
                entities: old(self).entities@.map_values(|e: Entity| flown_up(e)),
                ..old(self)@
            }),
    {
        let ghost orig = self.entities@;
        let ghost v0 = self@;
        let mut k: usize = 0;
        while k < self.entities.len()
            invariant
                k <= self.entities@.len(),
                self.entities@.len() == orig.len(),
                self@ == (WorldView { entities: self.entities@, ..v0 }),
                forall|j: int| 0 <= j < k ==> #[trigger] self.entities@[j] == flown_up(orig[j]),
                forall|j: int| k <= j < orig.len() ==> #[trigger] self.entities@[j] == orig[j],
            decreases orig.len() - k,
        {
            let e = fly_up(self.entities[k]);
            self.entities.set(k, e);
            k += 1;
        }
        assert(self.entities@ =~= orig.map_values(|e: Entity| flown_up(e)));
    }

    /// Moves every enemy's shot down by one tick.
    pub fn move_enemy_shots(&mut self)
        ensures
            final(self)@ == (WorldView {
                entities: old(self).entities@.map_values(|e: Entity| flown_down(e)),
                ..old(self)@
            }),
    {
        let ghost orig = self.entities@;
        let ghost v0 = self@;
        let mut k: usize = 0;
        while k < self.entities.len()
            invariant
                k <= self.entities@.len(),
                self.entities@.len() == orig.len(),
                self@ == (WorldView { entities: self.entities@, ..v0 }),
                forall|j: int| 0 <= j < k ==> #[trigger] self.entities@[j] == flown_down(orig[j]),
                forall|j: int| k <= j < orig.len() ==> #[trigger] self.entities@[j] == orig[j],
            decreases orig.len() - k,
        {
            let e = fly_down(self.entities[k]);
            self.entities.set(k, e);
            k += 1;
        }
        assert(self.entities@ =~= orig.map_values(|e: Entity| flown_down(e)));
    }

    /// Moves every enemy's shot on to its next animation frame.
    pub fn animate_enemy_shots(&mut self)
        ensures
            final(self)@ == (WorldView {
                entities: old(self).entities@.map_values(|e: Entity| animated(e)),
                ..old(self)@
            }),
    {
        let ghost orig = self.entities@;
        let ghost v0 = self@;
        let mut k: usize = 0;
        while k < self.entities.len()
            invariant
                k <= self.entities@.len(),
                self.entities@.len() == orig.len(),
                self@ == (WorldView { entities: self.entities@, ..v0 }),
                forall|j: int| 0 <= j < k ==> #[trigger] self.entities@[j] == animated(orig[j]),
                forall|j: int| k <= j < orig.len() ==> #[trigger] self.entities@[j] == orig[j],
            decreases orig.len() - k,
        {
            let e = animate(self.entities[k]);
            self.entities.set(k, e);
            k += 1;
        }
        assert(self.entities@ =~= orig.map_values(|e: Entity| animated(e)));
    }
}

} // verus!
