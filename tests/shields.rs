use invaders::entity::Kind;
use invaders::world::{Lives, Score, EnemyDirection, Timer, World};

fn empty_world() -> World {
    World {
        entities: Vec::new(),
        next_id: 0,
        score: Score(0),
        lives: Lives(3),
        direction: EnemyDirection::Right,
        move_timer: Timer { elapsed_ms: 0 },
        shoot_timer: Timer { elapsed_ms: 0 },
        total_enemies: 0,
        temporaries: Vec::new(),
        shields_spawned: false,
    }
}

fn block_positions(w: &World) -> Vec<(i32, i32)> {
    w.entities
        .iter()
        .filter(|e| e.kind == Kind::ShieldBlock)
        .map(|e| (e.transform.x, e.transform.y))
        .collect()
}

#[test]
fn shields_follow_the_opaque_pixels() {
    let mut w = empty_world();
    // 2x2 RGBA: alphas 255, 0 / 200, 129.
    let data: Vec<u8> = vec![0, 0, 0, 255, 0, 0, 0, 0, 0, 0, 0, 200, 0, 0, 0, 129];
    assert!(w.spawn_sprites(2, 2, &data));
    assert!(w.shields_spawned);
    let blocks = block_positions(&w);
    assert_eq!(blocks.len(), 4 * 3 + 224);
    assert_eq!(&blocks[0..3], &[(33, 77), (33, 76), (34, 76)]);
    assert_eq!(&blocks[3..6], &[(79, 77), (79, 76), (80, 76)]);
    assert_eq!(&blocks[9..12], &[(168, 77), (168, 76), (169, 76)]);
    assert_eq!(blocks[12], (0, 20));
    assert_eq!(blocks[12 + 223], (223, 20));
    let ids: Vec<u64> = w.entities.iter().map(|e| e.id).collect();
    assert_eq!(ids, (0..236).collect::<Vec<u64>>());
}

#[test]
fn shields_spawn_only_once() {
    let mut w = empty_world();
    let data: Vec<u8> = vec![0, 0, 0, 255];
    assert!(w.spawn_sprites(1, 1, &data));
    let n = w.entities.len();
    assert_eq!(n, 4 + 224);
    assert!(!w.spawn_sprites(1, 1, &data));
    assert_eq!(w.entities.len(), n);
}

#[test]
fn missing_pixels_are_transparent() {
    let mut w = empty_world();
    // The second pixel's alpha byte is missing; an alpha of exactly 128 stays transparent.
    let data: Vec<u8> = vec![0, 0, 0, 128, 0, 0, 0];
    assert!(w.spawn_sprites(2, 1, &data));
    assert_eq!(block_positions(&w).len(), 224);
}
