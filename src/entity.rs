use vstd::prelude::*;
use crate::collider::Collider;

verus! {

/// A width and a height in arena units.
#[derive(Clone, Copy, Debug, PartialEq, Eq, Structural)]
pub struct Size {
    pub w: u16,
    pub h: u16,
}

/// Position of an entity's centre (origin bottom-left) and its scale on each axis.
#[derive(Clone, Copy, Debug, PartialEq, Eq, Structural)]
pub struct Transform {
    pub x: i32,
    pub y: i32,
    pub scale_x: u16,
    pub scale_y: u16,
}

/// The visual of an entity as far as the core needs it: an explicit size
/// override, the size of its image once loaded, and its animation frame.
#[derive(Clone, Copy, Debug, PartialEq, Eq, Structural)]
pub struct Sprite {
    pub custom_size: Option<Size>,
    pub image_size: Option<Size>,
    pub frame: u8,
}

/// Grid coordinate of an enemy: `x` is its column, `y` its row (the
/// greatest row is nearest to the player).
#[derive(Clone, Copy, Debug, PartialEq, Eq, Structural)]
pub struct Enemy {
    pub x: usize,
    pub y: usize,
}

/// Points awarded for destroying an enemy.
#[derive(Clone, Copy, Debug, PartialEq, Eq, Structural)]
pub struct Points(pub usize);

/// Whether an enemy may fire.
#[derive(Clone, Copy, Debug, PartialEq, Eq, Structural)]
pub enum Role {
    Shooter,
    NonShooter,
}

/// The kind of an entity, which decides how it reacts to a hit.
#[derive(Clone, Copy, Debug, PartialEq, Eq, Structural)]
pub enum Kind {
    PlayerShot,
    EnemyShot,
    Enemy { cell: Enemy, points: Points, role: Role },
    Player,
    ShieldBlock,
    Wall,
}

/// One simulated object of the arena.
#[derive(Clone, Copy, Debug, PartialEq, Eq, Structural)]
pub struct Entity {
    pub id: u64,
    pub kind: Kind,
    pub transform: Transform,
    pub sprite: Option<Sprite>,
    pub collider: Collider,
}

/// The unscaled size of a sprite: the override if there is one, else the
/// image's size, else a unit square.
pub open spec fn base_size(s: Sprite) -> Size {
    match s.custom_size {
        Some(c) => c,
        None => match s.image_size {
            Some(i) => i,
            None => Size { w: 1, h: 1 },
        },
    }
}

/// Full width of an entity's bounding box. An entity without a sprite has a
/// box whose half-width is its scale.
pub open spec fn extent_w(e: Entity) -> int {
    match e.sprite {
        Some(s) => base_size(s).w * e.transform.scale_x,
        None => 2 * e.transform.scale_x,
    }
}

/// Full height of an entity's bounding box.
pub open spec fn extent_h(e: Entity) -> int {
    match e.sprite {
        Some(s) => base_size(s).h * e.transform.scale_y,
        None => 2 * e.transform.scale_y,
    }
}

pub open spec fn abs(v: int) -> int {
    if v < 0 { -v } else { v }
}

/// The two axis-aligned boxes touch or overlap on both axes.
pub open spec fn overlaps(a: Entity, b: Entity) -> bool {
    &&& 2 * abs(a.transform.x - b.transform.x) <= extent_w(a) + extent_w(b)
    &&& 2 * abs(a.transform.y - b.transform.y) <= extent_h(a) + extent_h(b)
}

/// No two entities of the store share an id.
pub open spec fn ids_unique(ents: Seq<Entity>) -> bool {
    forall|i: int, j: int|
        0 <= i < ents.len() && 0 <= j < ents.len() && #[trigger] ents[i].id == #[trigger] ents[j].id
            ==> i == j
}

pub open spec fn is_projectile(e: Entity) -> bool {
    e.kind is PlayerShot || e.kind is EnemyShot
}

pub open spec fn is_enemy(e: Entity) -> bool {
    e.kind is Enemy
}

fn scaled(len: u16, scale: u16) -> (r: i64)
    ensures
        r == len * scale,
        0 <= r <= 0xffff * 0xffff,
{
    proof {
        vstd::arithmetic::mul::lemma_mul_inequality(len as int, 0xffff, scale as int);
        vstd::arithmetic::mul::lemma_mul_inequality(scale as int, 0xffff, 0xffff);
        vstd::arithmetic::mul::lemma_mul_nonnegative(len as int, scale as int);
    }
    (len as i64) * (scale as i64)
}

impl Sprite {
    /// The sprite's unscaled size.
    pub fn base_size(&self) -> (r: Size)
        ensures
            r == base_size(*self),
    {
        match self.custom_size {
            Some(c) => c,
            None => match self.image_size {
                Some(i) => i,
                None => Size { w: 1, h: 1 },
            },
        }
    }
}

impl Entity {
    pub fn is_projectile(&self) -> (r: bool)
        ensures
            r == is_projectile(*self),
    {
        match self.kind {
            Kind::PlayerShot | Kind::EnemyShot => true,
            _ => false,
        }
    }

    /// Full extent of the bounding box, scaled by the transform.
    pub fn size(&self) -> (r: (i64, i64))
        ensures
            r.0 == extent_w(*self),
            r.1 == extent_h(*self),
            0 <= r.0 <= 0xffff * 0xffff,
            0 <= r.1 <= 0xffff * 0xffff,
    {
        match self.sprite {
            Some(s) => {
                let b = s.base_size();
                (scaled(b.w, self.transform.scale_x), scaled(b.h, self.transform.scale_y))
            },
            None => (scaled(2, self.transform.scale_x), scaled(2, self.transform.scale_y)),
        }
    }
}

} // verus!
