use vstd::prelude::*;

verus! {

/// What a collider is: one bit per collision category.
pub const PLAYER_SHOT: u32 = 0b000001;
pub const ENEMY_SHOT: u32 = 0b000010;
pub const WALL: u32 = 0b000100;
pub const ENEMY: u32 = 0b001000;
pub const PLAYER: u32 = 0b010000;
pub const SHIELD: u32 = 0b100000;

/// A pair of layer masks: `layer` is what the entity is, `mask` what it can be hit by.
#[derive(Clone, Copy, Debug, PartialEq, Eq, Structural)]
pub struct Collider {
    pub layer: u32,
    pub mask: u32,
}

/// Two masks share at least one bit.
pub open spec fn intersects(a: u32, b: u32) -> bool {
    a & b != 0
}

/// The symmetric interaction test between two colliders.
pub open spec fn collides(a: Collider, b: Collider) -> bool {
    intersects(a.mask, b.layer) && intersects(b.mask, a.layer)
}

pub open spec fn player_collider() -> Collider {
    Collider { layer: PLAYER, mask: ENEMY_SHOT }
}

pub open spec fn enemy_collider() -> Collider {
    Collider { layer: ENEMY, mask: PLAYER_SHOT }
}

pub open spec fn wall_collider() -> Collider {
    Collider { layer: WALL, mask: PLAYER_SHOT | ENEMY_SHOT }
}

pub open spec fn shield_collider() -> Collider {
    Collider { layer: SHIELD, mask: PLAYER_SHOT | ENEMY_SHOT }
}

/// The collider of a shot fired by the player.
pub open spec fn player_shot_collider() -> Collider {
    Collider { layer: PLAYER_SHOT, mask: ENEMY | WALL | SHIELD }
}

/// The collider of a shot fired by an enemy.
pub open spec fn enemy_shot_collider() -> Collider {
    Collider { layer: ENEMY_SHOT, mask: PLAYER | WALL | SHIELD }
}

impl Collider {
    pub fn player_layer() -> (r: Self)
        ensures
            r == player_collider(),
    {
        Self { layer: PLAYER, mask: ENEMY_SHOT }
    }

    pub fn enemy_layer() -> (r: Self)
        ensures
            r == enemy_collider(),
    {
        Self { layer: ENEMY, mask: PLAYER_SHOT }
    }

    pub fn wall_layer() -> (r: Self)
        ensures
            r == wall_collider(),
    {
        Self { layer: WALL, mask: PLAYER_SHOT | ENEMY_SHOT }
    }

    pub fn shield_layer() -> (r: Self)
        ensures
            r == shield_collider(),
    {
        Self { layer: SHIELD, mask: PLAYER_SHOT | ENEMY_SHOT }
    }

    /// The collider of a shot fired by the player.
    pub fn player_shot_layer() -> (r: Self)
        ensures
            r == player_shot_collider(),
    {
        Self { layer: PLAYER_SHOT, mask: ENEMY | WALL | SHIELD }
    }

    /// The collider of a shot fired by an enemy.
    pub fn enemy_shot_layer() -> (r: Self)
        ensures
            r == enemy_shot_collider(),
    {
        Self { layer: ENEMY_SHOT, mask: PLAYER | WALL | SHIELD }
    }

    pub fn should_collide(a: &Collider, b: &Collider) -> (r: bool)
        ensures
            r == collides(*a, *b),
    {
        (a.mask & b.layer) != 0 && (b.mask & a.layer) != 0
    }
}

/// The interaction test does not depend on the order of its arguments.
pub proof fn lemma_should_collide_symmetric(a: Collider, b: Collider)
    ensures
        collides(a, b) == collides(b, a),
{
}

/// A player's shot never interacts with anything of the player's layer, and an
/// enemy's shot never with anything of the enemy layer, whatever the other mask.
pub proof fn lemma_no_friendly_fire(c: Collider)
    ensures
        c.layer == PLAYER ==> !collides(player_shot_collider(), c),
        c.layer == ENEMY ==> !collides(enemy_shot_collider(), c),
{
    assert((ENEMY | WALL | SHIELD) & PLAYER == 0) by (bit_vector);
    assert((PLAYER | WALL | SHIELD) & ENEMY == 0) by (bit_vector);
}

} // verus!
