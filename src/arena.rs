use vstd::prelude::*;
use crate::collider::{enemy_collider, player_collider, wall_collider, Collider};
use crate::entity::{is_enemy, Enemy, Entity, Kind, Points, Role, Size, Sprite, Transform, ids_unique};
use crate::formation::ARENA_WIDTH;
use crate::player::{PLAYER_FLOOR_GAP, PLAYER_HEIGHT, PLAYER_WIDTH, START_LIVES};
use crate::shooters::{cells_unique, formation_ok, is_column_front};
use crate::wall::{new, wall_transform, WallLocation};
use crate::world::{cell_of, ids_fresh, is_shooter, EnemyDirection, Lives, Score, Timer, World};

verus! {

pub const FORMATION_COLUMNS: usize = 11;
pub const FORMATION_ROWS: usize = 5;
/// Gap between two neighbouring enemies of a row.
pub const ENEMY_SPACING: i32 = 3;
/// Horizontal distance between the centres of neighbouring enemies.
pub const COLUMN_STEP: i32 = 12 + ENEMY_SPACING;
/// Vertical distance between the centres of neighbouring rows: half an
/// enemy and eight units more.
pub const ROW_STEP: i32 = 16;
/// Centre of the enemy in the first column of the first row: half an enemy
/// and the wall gap from the left side, half an enemy and 55 units below the
/// top.
pub const ENEMY_START_X: i32 = 18;
pub const ENEMY_START_Y: i32 = 193;

/// Points for an enemy of row `row`.
pub open spec fn row_points(row: int) -> usize {
    if row == 0 {
        30
    } else if row <= 2 {
        20
    } else {
        10
    }
}

/// Collision size of an enemy of row `row`.
pub open spec fn row_size(row: int) -> Size {
    if row == 0 {
        Size { w: 8, h: 8 }
    } else if row <= 2 {
        Size { w: 11, h: 8 }
    } else {
        Size { w: 12, h: 8 }
    }
}

/// The enemy that starts at column `col` and row `row`; the last row holds
/// the shooters.
pub open spec fn formation_enemy(col: int, row: int, id: u64) -> Entity {
    Entity {
        id,
        kind: Kind::Enemy {
            cell: Enemy { x: col as usize, y: row as usize },
            points: Points(row_points(row)),
            role: if row == FORMATION_ROWS - 1 { Role::Shooter } else { Role::NonShooter },
        },
        transform: Transform {
            x: (ENEMY_START_X + COLUMN_STEP * col) as i32,
            y: (ENEMY_START_Y - ROW_STEP * row) as i32,
            scale_x: 1,
            scale_y: 1,
        },
        sprite: Some(Sprite { custom_size: Some(row_size(row)), image_size: None, frame: 0 }),
        collider: enemy_collider(),
    }
}

pub open spec fn player_entity(id: u64) -> Entity {
    Entity {
        id,
        kind: Kind::Player,
        transform: Transform { x: (ARENA_WIDTH / 2) as i32, y: PLAYER_FLOOR_GAP, scale_x: 1, scale_y: 1 },
        sprite: Some(Sprite {
            custom_size: Some(Size { w: PLAYER_WIDTH as u16, h: PLAYER_HEIGHT as u16 }),
            image_size: None,
            frame: 0,
        }),
        collider: player_collider(),
    }
}

pub open spec fn wall_entity(l: WallLocation, id: u64) -> Entity {
    Entity { id, kind: Kind::Wall, transform: wall_transform(l), sprite: None, collider: wall_collider() }
}

/// Number of entities a session starts with: four walls, the player and the formation.
pub open spec fn initial_len() -> int {
    5 + FORMATION_COLUMNS * FORMATION_ROWS
}

/// The entity at index `i` of a new session; its id is `i`.
pub open spec fn initial_entity(i: int) -> Entity {
    if i == 0 {
        wall_entity(WallLocation::Left, 0)
    } else if i == 1 {
        wall_entity(WallLocation::Right, 1)
    } else if i == 2 {
        wall_entity(WallLocation::Top, 2)
    } else if i == 3 {
        wall_entity(WallLocation::Bottom, 3)
    } else if i == 4 {
        player_entity(4)
    } else {
        formation_enemy((i - 5) % 11, (i - 5) / 11, i as u64)
    }
}

proof fn lemma_initial_formation_ok(ents: Seq<Entity>)
    requires
        ents.len() == initial_len(),
        forall|i: int| 0 <= i < ents.len() ==> #[trigger] ents[i] == initial_entity(i),
    ensures
        formation_ok(ents),
        ids_unique(ents),
{
    assert forall|i: int| 0 <= i < ents.len() && #[trigger] is_enemy(ents[i]) implies 5 <= i
        && cell_of(ents[i]) == (Enemy { x: ((i - 5) % 11) as usize, y: ((i - 5) / 11) as usize })
        && (i - 5) / 11 < 5 && (is_shooter(ents[i]) <==> (i - 5) / 11 == 4) by {}
    assert forall|i: int, j: int|
        0 <= i < ents.len() && 0 <= j < ents.len() && i != j && #[trigger] is_enemy(ents[i])
            && #[trigger] is_enemy(ents[j]) implies cell_of(ents[i]) != cell_of(ents[j]) by {
        vstd::arithmetic::div_mod::lemma_fundamental_div_mod(i - 5, 11);
        vstd::arithmetic::div_mod::lemma_fundamental_div_mod(j - 5, 11);
    }
    assert(cells_unique(ents));
    assert forall|i: int| 0 <= i < ents.len() && #[trigger] is_enemy(ents[i]) implies (is_shooter(
        ents[i],
    ) <==> is_column_front(ents, i)) by {
        let col = (i - 5) % 11;
        let front = 5 + 44 + col;
        assert(ents[front] == initial_entity(front));
        assert(is_enemy(ents[front]));
        assert(cell_of(ents[front]).x == col && cell_of(ents[front]).y == 4);
    }
    assert forall|i: int, j: int|
        0 <= i < ents.len() && 0 <= j < ents.len() && #[trigger] ents[i].id == #[trigger] ents[j].id
            implies i == j by {
        assert(ents[i] == initial_entity(i) && ents[j] == initial_entity(j));
    }
}

impl World {
    /// A new session: walls round the arena, the player near the floor, and
    /// the whole formation, whose last row holds the shooters.
    pub fn new() -> (w: World)
        ensures
            w.entities@.len() == initial_len(),
            forall|i: int| 0 <= i < w.entities@.len() ==> #[trigger] w.entities@[i] == initial_entity(i),
            w.next_id == initial_len(),
            w.score == Score(0),
            w.lives == Lives(START_LIVES),
            w.direction == EnemyDirection::Right,
            w.move_timer.elapsed_ms == 0,
            w.shoot_timer.elapsed_ms == 0,
            w.total_enemies == FORMATION_COLUMNS * FORMATION_ROWS,
            w.temporaries@.len() == 0,
            !w.shields_spawned,
            formation_ok(w.entities@),
            ids_fresh(w@),
    {
        let mut w = World {
            entities: Vec::new(),
            next_id: 0,
            score: Score(0),
            lives: Lives(START_LIVES),
            direction: EnemyDirection::Right,
            move_timer: Timer { elapsed_ms: 0 },
            shoot_timer: Timer { elapsed_ms: 0 },
            total_enemies: FORMATION_COLUMNS * FORMATION_ROWS,
            temporaries: Vec::new(),
            shields_spawned: false,
        };
        let (t, c) = new(WallLocation::Left);
        w.spawn(Kind::Wall, t, None, c);
        let (t, c) = new(WallLocation::Right);
        w.spawn(Kind::Wall, t, None, c);
        let (t, c) = new(WallLocation::Top);
        w.spawn(Kind::Wall, t, None, c);
        let (t, c) = new(WallLocation::Bottom);
        w.spawn(Kind::Wall, t, None, c);
        let player_sprite = Sprite {
            custom_size: Some(Size { w: PLAYER_WIDTH as u16, h: PLAYER_HEIGHT as u16 }),
            image_size: None,
            frame: 0,
        };
        w.spawn(
            Kind::Player,
            Transform { x: ARENA_WIDTH / 2, y: PLAYER_FLOOR_GAP, scale_x: 1, scale_y: 1 },
            Some(player_sprite),
            Collider::player_layer(),
        );
        assert forall|i: int| 0 <= i < 5 implies #[trigger] w.entities@[i] == initial_entity(i) by {}
        let mut k: usize = 0;
        while k < FORMATION_COLUMNS * FORMATION_ROWS
            invariant
                k <= FORMATION_COLUMNS * FORMATION_ROWS,
                w.entities@.len() == 5 + k,
                w.next_id == 5 + k,
                forall|i: int| 0 <= i < 5 + k ==> #[trigger] w.entities@[i] == initial_entity(i),
                w.score == Score(0),
                w.lives == Lives(START_LIVES),
                w.direction == EnemyDirection::Right,
                w.move_timer.elapsed_ms == 0,
                w.shoot_timer.elapsed_ms == 0,
                w.total_enemies == FORMATION_COLUMNS * FORMATION_ROWS,
                w.temporaries@.len() == 0,
                !w.shields_spawned,
            decreases FORMATION_COLUMNS * FORMATION_ROWS - k,
        {
            let col = k % FORMATION_COLUMNS;
            let row = k / FORMATION_COLUMNS;
            let points = if row == 0 {
                30
            } else if row <= 2 {
                20
            } else {
                10
            };
            let size = if row == 0 {
                Size { w: 8, h: 8 }
            } else if row <= 2 {
                Size { w: 11, h: 8 }
            } else {
                Size { w: 12, h: 8 }
            };
            let role = if row == FORMATION_ROWS - 1 { Role::Shooter } else { Role::NonShooter };
            let x = ENEMY_START_X + COLUMN_STEP * (col as i32);
            let y = ENEMY_START_Y - ROW_STEP * (row as i32);
            w.spawn(
                Kind::Enemy { cell: Enemy { x: col, y: row }, points: Points(points), role },
                Transform { x, y, scale_x: 1, scale_y: 1 },
                Some(Sprite { custom_size: Some(size), image_size: None, frame: 0 }),
                Collider::enemy_layer(),
            );
            assert(w.entities@[5 + k as int] == initial_entity(5 + k as int));
            k += 1;
        }
        proof {
            lemma_initial_formation_ok(w.entities@);
            assert forall|i: int| 0 <= i < w.entities@.len() implies (#[trigger] w.entities@[i]).id < w.next_id by {
                assert(w.entities@[i] == initial_entity(i));
            }
        }
        w
    }
}

} // verus!
