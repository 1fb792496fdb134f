use vstd::prelude::*;
use crate::collider::{wall_collider, Collider};
use crate::entity::Transform;
use crate::formation::{ARENA_HEIGHT, ARENA_WIDTH};

verus! {

pub const WALL_THICKNESS: i32 = 1;

/// The four walls round the arena.
#[derive(Clone, Copy, Debug, PartialEq, Eq, Structural)]
pub enum WallLocation {
    Left,
    Right,
    Top,
    Bottom,
}

pub open spec fn wall_position(l: WallLocation) -> (i32, i32) {
    match l {
        WallLocation::Left => (0, (ARENA_HEIGHT / 2) as i32),
        WallLocation::Right => (ARENA_WIDTH, (ARENA_HEIGHT / 2) as i32),
        WallLocation::Top => ((ARENA_WIDTH / 2) as i32, ARENA_HEIGHT),
        WallLocation::Bottom => ((ARENA_WIDTH / 2) as i32, 0),
    }
}

pub open spec fn wall_size(l: WallLocation) -> (u16, u16) {
    match l {
        WallLocation::Left | WallLocation::Right => (WALL_THICKNESS as u16, (ARENA_HEIGHT + WALL_THICKNESS) as u16),
        WallLocation::Top | WallLocation::Bottom => ((ARENA_WIDTH + WALL_THICKNESS) as u16, WALL_THICKNESS as u16),
    }
}

/// A wall has no sprite: its scale is the half-extent of its box.
pub open spec fn wall_transform(l: WallLocation) -> Transform {
    Transform {
        x: wall_position(l).0,
        y: wall_position(l).1,
        scale_x: wall_size(l).0,
        scale_y: wall_size(l).1,
    }
}

impl WallLocation {
    /// Centre of the wall.
    pub fn position(&self) -> (r: (i32, i32))
        ensures
            r == wall_position(*self),
    {
        match self {
            WallLocation::Left => (0, ARENA_HEIGHT / 2),
            WallLocation::Right => (ARENA_WIDTH, ARENA_HEIGHT / 2),
            WallLocation::Top => (ARENA_WIDTH / 2, ARENA_HEIGHT),
            WallLocation::Bottom => (ARENA_WIDTH / 2, 0),
        }
    }

    pub fn size(&self) -> (r: (u16, u16))
        ensures
            r == wall_size(*self),
    {
        match self {
            WallLocation::Left | WallLocation::Right => (WALL_THICKNESS as u16, (ARENA_HEIGHT + WALL_THICKNESS) as u16),
            WallLocation::Top | WallLocation::Bottom => ((ARENA_WIDTH + WALL_THICKNESS) as u16, WALL_THICKNESS as u16),
        }
    }
}

/// The transform and collider of a wall.
pub fn new(location: WallLocation) -> (r: (Transform, Collider))
    ensures
        r.0 == wall_transform(location),
        r.1 == wall_collider(),
{
    let (x, y) = location.position();
    let (w, h) = location.size();
    (Transform { x, y, scale_x: w, scale_y: h }, Collider::wall_layer())
}

} // verus!
