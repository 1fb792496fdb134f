use invaders::arena::{FORMATION_COLUMNS, FORMATION_ROWS};
use invaders::collider::{Collider, ENEMY, ENEMY_SHOT, PLAYER, PLAYER_SHOT, SHIELD, WALL};
use invaders::collision::{check_collisions, Hit};
use invaders::entity::{Enemy, Entity, Kind, Points, Role, Size, Sprite, Transform};
use invaders::formation::{move_delay, FINAL_MOVE_DELAY_MS, INITIAL_MOVE_DELAY_MS, MOVE_Y};
use invaders::state::GameState;
use invaders::tick::TickInput;
use invaders::wall::{new, WallLocation};
use invaders::world::{
    EnemyDirection, Lives, Score, ScoreChanged, Temporary, Timer, World, EXPLOSION_MS,
};

fn empty_world() -> World {
    World {
        entities: Vec::new(),
        next_id: 0,
        score: Score(0),
        lives: Lives(3),
        direction: EnemyDirection::Right,
        move_timer: Timer { elapsed_ms: 0 },
        shoot_timer: Timer { elapsed_ms: 0 },
        total_enemies: 0,
        temporaries: Vec::new(),
        shields_spawned: false,
    }
}

fn sprite(w: u16, h: u16) -> Option<Sprite> {
    Some(Sprite { custom_size: Some(Size { w, h }), image_size: None, frame: 0 })
}

fn at(x: i32, y: i32) -> Transform {
    Transform { x, y, scale_x: 1, scale_y: 1 }
}

fn spawn_enemy(w: &mut World, col: usize, row: usize, x: i32, y: i32, role: Role, points: usize) -> u64 {
    w.spawn(
        Kind::Enemy { cell: Enemy { x: col, y: row }, points: Points(points), role },
        at(x, y),
        sprite(12, 8),
        Collider::enemy_layer(),
    )
    .unwrap()
}

fn spawn_block(w: &mut World, x: i32, y: i32) -> u64 {
    w.spawn(Kind::ShieldBlock, at(x, y), sprite(1, 1), Collider::shield_layer()).unwrap()
}

fn role_of(w: &World, id: u64) -> Option<Role> {
    let i = w.find(id)?;
    match w.entities[i].kind {
        Kind::Enemy { role, .. } => Some(role),
        _ => None,
    }
}

fn all_colliders() -> Vec<Collider> {
    vec![
        Collider::player_layer(),
        Collider::enemy_layer(),
        Collider::wall_layer(),
        Collider::shield_layer(),
        Collider::player_shot_layer(),
        Collider::enemy_shot_layer(),
    ]
}

#[test]
fn should_collide_is_symmetric() {
    for a in all_colliders() {
        for b in all_colliders() {
            assert_eq!(Collider::should_collide(&a, &b), Collider::should_collide(&b, &a));
        }
    }
    let odd = Collider { layer: WALL | ENEMY, mask: PLAYER_SHOT };
    for b in all_colliders() {
        assert_eq!(Collider::should_collide(&odd, &b), Collider::should_collide(&b, &odd));
    }
}

#[test]
fn shots_spare_their_own_side() {
    let player_shot = Collider::player_shot_layer();
    let enemy_shot = Collider::enemy_shot_layer();
    assert!(!Collider::should_collide(&player_shot, &Collider::player_layer()));
    assert!(!Collider::should_collide(&enemy_shot, &Collider::enemy_layer()));
    let greedy_player = Collider { layer: PLAYER, mask: PLAYER_SHOT | ENEMY_SHOT };
    assert!(!Collider::should_collide(&player_shot, &greedy_player));
    let greedy_enemy = Collider { layer: ENEMY, mask: PLAYER_SHOT | ENEMY_SHOT };
    assert!(!Collider::should_collide(&enemy_shot, &greedy_enemy));
}

#[test]
fn shots_hit_the_other_side_walls_and_shields() {
    let player_shot = Collider::player_shot_layer();
    let enemy_shot = Collider::enemy_shot_layer();
    assert!(Collider::should_collide(&player_shot, &Collider::enemy_layer()));
    assert!(Collider::should_collide(&enemy_shot, &Collider::player_layer()));
    for shot in [player_shot, enemy_shot] {
        assert!(Collider::should_collide(&shot, &Collider::wall_layer()));
        assert!(Collider::should_collide(&shot, &Collider::shield_layer()));
    }
    assert!(!Collider::should_collide(&Collider::enemy_layer(), &Collider::wall_layer()));
    assert!(!Collider::should_collide(&player_shot, &enemy_shot));
    assert_eq!(Collider::shield_layer().mask, PLAYER_SHOT | ENEMY_SHOT);
    assert_eq!(Collider::shield_layer().layer, SHIELD);
}

#[test]
fn one_hit_per_projectile_with_many_targets() {
    let mut w = empty_world();
    let a = spawn_block(&mut w, 50, 50);
    let _b = spawn_block(&mut w, 50, 51);
    let _c = spawn_block(&mut w, 51, 50);
    let shot = w.spawn_player_shots(50, 50).unwrap();
    let hits = check_collisions(&w.entities);
    assert_eq!(hits, vec![Hit { projectile: shot, target: a }]);
}

#[test]
fn each_projectile_resolves_its_own_first_target() {
    let mut w = empty_world();
    let s1 = w.spawn_player_shots(10, 10).unwrap();
    let b = spawn_block(&mut w, 10, 11);
    let s2 = w.spawn_enemy_shots(100, 100).unwrap();
    let _far = spawn_block(&mut w, 100, 200);
    let hits = check_collisions(&w.entities);
    assert_eq!(hits, vec![Hit { projectile: s1, target: b }]);
    assert!(hits.iter().all(|h| h.projectile != s2));
}

#[test]
fn boxes_that_only_touch_collide() {
    let mut w = empty_world();
    // A shot of height 4 and a block of height 1: centres 2 apart just touch (2 * 2 <= 4 + 1).
    let b = spawn_block(&mut w, 0, 2);
    let s = w.spawn_player_shots(0, 0).unwrap();
    assert_eq!(check_collisions(&w.entities), vec![Hit { projectile: s, target: b }]);
    let mut w = empty_world();
    spawn_block(&mut w, 0, 3);
    w.spawn_player_shots(0, 0).unwrap();
    assert!(check_collisions(&w.entities).is_empty());
}

#[test]
fn missing_image_falls_back_to_a_unit_square() {
    let unloaded = Entity {
        id: 0,
        kind: Kind::ShieldBlock,
        transform: Transform { x: 0, y: 0, scale_x: 3, scale_y: 2 },
        sprite: Some(Sprite { custom_size: None, image_size: None, frame: 0 }),
        collider: Collider::shield_layer(),
    };
    assert_eq!(unloaded.size(), (3, 2));
    let loaded = Entity {
        sprite: Some(Sprite { custom_size: None, image_size: Some(Size { w: 5, h: 7 }), frame: 0 }),
        ..unloaded
    };
    assert_eq!(loaded.size(), (15, 14));
    let custom = Entity {
        sprite: Some(Sprite {
            custom_size: Some(Size { w: 1, h: 4 }),
            image_size: Some(Size { w: 5, h: 7 }),
            frame: 0,
        }),
        ..unloaded
    };
    assert_eq!(custom.size(), (3, 8));
}

#[test]
fn walls_use_their_scale_as_half_extent() {
    let (t, c) = new(WallLocation::Top);
    assert_eq!((t.x, t.y, t.scale_x, t.scale_y), (112, 256, 225, 1));
    assert_eq!(c, Collider::wall_layer());
    let (t, _) = new(WallLocation::Left);
    assert_eq!((t.x, t.y, t.scale_x, t.scale_y), (0, 128, 1, 257));
    let wall = Entity { id: 0, kind: Kind::Wall, transform: t, sprite: None, collider: c };
    assert_eq!(wall.size(), (2, 514));
}

#[test]
fn promotion_walks_up_a_column() {
    let mut w = empty_world();
    let mut ids = Vec::new();
    for row in 0..5usize {
        let role = if row == 4 { Role::Shooter } else { Role::NonShooter };
        ids.push(spawn_enemy(&mut w, 2, row, 40, 100 - 16 * row as i32, role, 10));
    }
    let other = spawn_enemy(&mut w, 3, 4, 60, 36, Role::Shooter, 10);
    w.on_hit(ids[4]);
    assert_eq!(role_of(&w, ids[3]), Some(Role::Shooter));
    assert_eq!(role_of(&w, ids[2]), Some(Role::NonShooter));
    w.on_hit(ids[3]);
    assert_eq!(role_of(&w, ids[2]), Some(Role::Shooter));
    assert_eq!(role_of(&w, ids[1]), Some(Role::NonShooter));
    assert_eq!(role_of(&w, ids[0]), Some(Role::NonShooter));
    assert_eq!(role_of(&w, other), Some(Role::Shooter));
}

#[test]
fn killing_a_non_shooter_promotes_nobody() {
    let mut w = empty_world();
    let back = spawn_enemy(&mut w, 0, 0, 40, 100, Role::NonShooter, 30);
    let mid = spawn_enemy(&mut w, 0, 1, 40, 84, Role::NonShooter, 20);
    let front = spawn_enemy(&mut w, 0, 2, 40, 68, Role::Shooter, 20);
    w.on_hit(mid);
    assert_eq!(role_of(&w, back), Some(Role::NonShooter));
    assert_eq!(role_of(&w, front), Some(Role::Shooter));
    assert_eq!(w.score, Score(20));
}

#[test]
fn last_of_a_column_leaves_it_without_shooter() {
    let mut w = empty_world();
    let only = spawn_enemy(&mut w, 5, 4, 40, 100, Role::Shooter, 10);
    let neighbour = spawn_enemy(&mut w, 6, 3, 55, 116, Role::Shooter, 10);
    w.on_hit(only);
    assert_eq!(w.enemy_count(), 1);
    assert_eq!(role_of(&w, neighbour), Some(Role::Shooter));
    assert_eq!(w.shooters().len(), 1);
}

#[test]
fn shooter_invariant_holds_after_a_run_of_deaths() {
    let mut w = World::new();
    let ids: Vec<u64> = w.entities.iter().filter(|e| matches!(e.kind, Kind::Enemy { .. })).map(|e| e.id).collect();
    for (n, id) in ids.iter().enumerate() {
        if n % 3 != 1 {
            w.on_hit(*id);
        }
        for col in 0..FORMATION_COLUMNS {
            let column: Vec<(usize, Role)> = w
                .entities
                .iter()
                .filter_map(|e| match e.kind {
                    Kind::Enemy { cell, role, .. } if cell.x == col => Some((cell.y, role)),
                    _ => None,
                })
                .collect();
            if column.is_empty() {
                continue;
            }
            let front = column.iter().map(|c| c.0).max().unwrap();
            let shooters: Vec<usize> = column.iter().filter(|c| c.1 == Role::Shooter).map(|c| c.0).collect();
            assert_eq!(shooters, vec![front]);
        }
    }
}

#[test]
fn score_is_credited_once() {
    let mut w = empty_world();
    let e = spawn_enemy(&mut w, 0, 0, 40, 100, Role::Shooter, 30);
    w.on_hit(e);
    assert_eq!(w.score, Score(30));
    assert_eq!(w.temporaries, vec![Temporary { x: 40, y: 100, remaining_ms: EXPLOSION_MS }]);
    w.on_hit(e);
    assert_eq!(w.score, Score(30));
    assert_eq!(w.temporaries.len(), 1);
}

#[test]
fn score_saturates() {
    let mut w = empty_world();
    w.score = Score(usize::MAX - 5);
    let e = spawn_enemy(&mut w, 0, 0, 40, 100, Role::Shooter, 30);
    w.on_hit(e);
    assert_eq!(w.score, Score(usize::MAX));
}

#[test]
fn hits_on_player_cost_a_life_and_stop_at_zero() {
    let mut w = empty_world();
    let p = w.spawn(Kind::Player, at(112, 45), sprite(12, 8), Collider::player_layer()).unwrap();
    w.lives = Lives(2);
    w.on_hit(p);
    assert_eq!(w.lives, Lives(1));
    assert!(w.find(p).is_some());
    w.on_hit(p);
    w.on_hit(p);
    assert_eq!(w.lives, Lives(0));
}

#[test]
fn walls_ignore_hits_and_shields_erode() {
    let mut w = empty_world();
    let (t, c) = new(WallLocation::Bottom);
    let wall = w.spawn(Kind::Wall, t, None, c).unwrap();
    let block = spawn_block(&mut w, 5, 5);
    w.on_hit(wall);
    w.on_hit(block);
    assert!(w.find(wall).is_some());
    assert!(w.find(block).is_none());
    w.on_hit(12345);
    assert_eq!(w.entities.len(), 1);
}

#[test]
fn enemy_shot_hits_player() {
    let mut w = empty_world();
    w.spawn(Kind::Player, at(112, 45), sprite(12, 8), Collider::player_layer()).unwrap();
    w.spawn_enemy_shots(114, 50).unwrap();
    let changed = w.resolve_collisions();
    assert_eq!(changed, None);
    assert_eq!(w.lives, Lives(2));
    assert_eq!(w.entities.len(), 1);
}

#[test]
fn direction_reverses_and_descends_at_the_right_edge() {
    let mut w = empty_world();
    // Right edge at 224 - 10 - 2: one more step of 4 crosses the boundary.
    let a = spawn_enemy(&mut w, 10, 0, 204, 150, Role::Shooter, 10);
    let b = spawn_enemy(&mut w, 9, 0, 189, 150, Role::Shooter, 10);
    let block = spawn_block(&mut w, 20, 20);
    assert_eq!(w.swap_enemy_direction(), None);
    w.move_enemies();
    assert_eq!(w.entities[w.find(a).unwrap()].transform.x, 208);
    assert!(w.swap_enemy_direction().is_some());
    assert_eq!(w.direction, EnemyDirection::Left);
    assert_eq!(w.entities[w.find(a).unwrap()].transform.y, 150 - MOVE_Y);
    assert_eq!(w.entities[w.find(b).unwrap()].transform.y, 150 - MOVE_Y);
    assert_eq!(w.entities[w.find(block).unwrap()].transform.y, 20);
    w.move_enemies();
    assert_eq!(w.entities[w.find(a).unwrap()].transform.x, 204);
}

#[test]
fn direction_reverses_at_the_left_edge() {
    let mut w = empty_world();
    w.direction = EnemyDirection::Left;
    spawn_enemy(&mut w, 0, 0, 19, 150, Role::Shooter, 10);
    assert_eq!(w.swap_enemy_direction(), None);
    w.move_enemies();
    assert!(w.swap_enemy_direction().is_some());
    assert_eq!(w.direction, EnemyDirection::Right);
}

#[test]
fn reverse_toggles() {
    let mut d = EnemyDirection::Right;
    d.reverse();
    assert_eq!(d, EnemyDirection::Left);
    assert_eq!(d.as_i32(), -1);
    d.reverse();
    assert_eq!(d, EnemyDirection::Right);
    assert_eq!(d.as_i32(), 1);
}

#[test]
fn cadence_values() {
    assert_eq!(move_delay(55, 55), INITIAL_MOVE_DELAY_MS);
    assert_eq!(move_delay(0, 55), FINAL_MOVE_DELAY_MS);
    assert_eq!(move_delay(27, 55), 345);
    assert_eq!(move_delay(1, 55), 109);
    assert_eq!(move_delay(3, 0), 600);
}

#[test]
fn cadence_never_slows_as_enemies_die() {
    let mut last = move_delay(55, 55);
    for live in (0..55).rev() {
        let d = move_delay(live, 55);
        assert!(d <= last);
        last = d;
    }
}

#[test]
fn move_timer_fires_and_restarts() {
    let mut t = Timer { elapsed_ms: 0 };
    assert!(!t.tick(600, 250));
    assert_eq!(t.elapsed_ms, 250);
    assert!(t.tick(600, 350));
    assert_eq!(t.elapsed_ms, 0);
    let mut t = Timer { elapsed_ms: 400 };
    assert!(t.tick(100, 0));
}

#[test]
fn formation_steps_on_its_cadence() {
    let mut w = World::new();
    let first = w.entities[5].transform.x;
    assert!(!w.advance_formation(599));
    assert_eq!(w.entities[5].transform.x, first);
    assert!(w.advance_formation(1));
    assert_eq!(w.entities[5].transform.x, first + 4);
    assert_eq!(w.entities[5].sprite.unwrap().frame, 1);
    assert_eq!(w.move_timer.elapsed_ms, 0);
}

#[test]
fn new_world_layout() {
    let w = World::new();
    assert_eq!(w.entities.len(), 60);
    assert_eq!(w.enemy_count(), FORMATION_COLUMNS * FORMATION_ROWS);
    assert_eq!(w.total_enemies, 55);
    assert_eq!(w.lives, Lives(3));
    assert_eq!(w.shooters().len(), 11);
    let e = w.entities[5];
    assert_eq!((e.transform.x, e.transform.y), (18, 193));
    assert!(matches!(e.kind, Kind::Enemy { cell: Enemy { x: 0, y: 0 }, points: Points(30), role: Role::NonShooter }));
    let e = w.entities[59];
    assert_eq!((e.transform.x, e.transform.y), (168, 129));
    assert!(matches!(e.kind, Kind::Enemy { cell: Enemy { x: 10, y: 4 }, points: Points(10), role: Role::Shooter }));
    let p = w.entities[w.player().unwrap()];
    assert_eq!((p.transform.x, p.transform.y), (112, 45));
}

#[test]
fn shot_beneath_front_enemy_end_to_end() {
    let mut w = World::new();
    let col = 3;
    let target = w
        .entities
        .iter()
        .find(|e| matches!(e.kind, Kind::Enemy { cell: Enemy { x: 3, y: 4 }, .. }))
        .copied()
        .unwrap();
    let next = w
        .entities
        .iter()
        .find(|e| matches!(e.kind, Kind::Enemy { cell: Enemy { x: 3, y: 3 }, .. }))
        .map(|e| e.id)
        .unwrap();
    assert_eq!(role_of(&w, next), Some(Role::NonShooter));
    let shot = w.spawn_player_shots(target.transform.x, target.transform.y - 5).unwrap();
    let changed = w.resolve_collisions();
    assert_eq!(changed, Some(ScoreChanged { score: 10 }));
    assert_eq!(w.score, Score(10));
    assert!(w.find(target.id).is_none());
    assert!(w.find(shot).is_none());
    assert_eq!(role_of(&w, next), Some(Role::Shooter));
    assert_eq!(w.enemy_count(), 54);
    let shooters_in_col = w
        .entities
        .iter()
        .filter(|e| matches!(e.kind, Kind::Enemy { cell, role: Role::Shooter, .. } if cell.x == col))
        .count();
    assert_eq!(shooters_in_col, 1);
}

#[test]
fn enemies_fire_from_a_shooter_on_their_timer() {
    let mut w = World::new();
    assert_eq!(w.shoot(400), None);
    let before = w.entities.len();
    let id = w.shoot(600).unwrap();
    assert_eq!(w.entities.len(), before + 1);
    let shot = w.entities[w.find(id).unwrap()];
    assert_eq!(shot.kind, Kind::EnemyShot);
    assert_eq!(shot.transform.y, 129 - 8);
    assert!((0..11).any(|c| shot.transform.x == 18 + 15 * c));
    assert_eq!(shot.collider, Collider::enemy_shot_layer());
    assert_eq!(w.shoot_timer.elapsed_ms, 0);
}

#[test]
fn no_shooter_means_no_shot() {
    let mut w = empty_world();
    spawn_enemy(&mut w, 0, 0, 40, 100, Role::NonShooter, 10);
    assert_eq!(w.shoot(1000), None);
    assert_eq!(w.entities.len(), 1);
    assert_eq!(w.fire_from(0), None);
}

#[test]
fn fire_from_picks_by_rank() {
    let mut w = empty_world();
    spawn_enemy(&mut w, 0, 4, 40, 100, Role::Shooter, 10);
    spawn_enemy(&mut w, 1, 4, 55, 90, Role::Shooter, 10);
    let id = w.fire_from(1).unwrap();
    let shot = w.entities[w.find(id).unwrap()];
    assert_eq!((shot.transform.x, shot.transform.y), (55, 82));
    assert_eq!(w.fire_from(2), None);
}

#[test]
fn player_moves_within_bounds() {
    let mut w = World::new();
    let i = w.player().unwrap();
    w.move_player(false, true);
    assert_eq!(w.entities[i].transform.x, 113);
    w.move_player(true, true);
    assert_eq!(w.entities[i].transform.x, 113);
    for _ in 0..300 {
        w.move_player(true, false);
    }
    assert_eq!(w.entities[i].transform.x, 6);
    for _ in 0..300 {
        w.move_player(false, true);
    }
    assert_eq!(w.entities[i].transform.x, 218);
}

#[test]
fn player_has_one_shot_at_a_time() {
    let mut w = World::new();
    assert_eq!(w.player_shoot(false), None);
    let id = w.player_shoot(true).unwrap();
    let shot = w.entities[w.find(id).unwrap()];
    assert_eq!((shot.transform.x, shot.transform.y), (112, 49));
    assert!(w.has_player_shot());
    assert_eq!(w.player_shoot(true), None);
    w.on_hit(id);
    assert!(!w.has_player_shot());
    assert!(w.player_shoot(true).is_some());
}

#[test]
fn shots_fly_and_animate() {
    let mut w = empty_world();
    let up = w.spawn_player_shots(10, 10).unwrap();
    let down = w.spawn_enemy_shots(20, 20).unwrap();
    let block = spawn_block(&mut w, 30, 30);
    w.move_player_shots();
    w.move_enemy_shots();
    assert_eq!(w.entities[w.find(up).unwrap()].transform.y, 13);
    assert_eq!(w.entities[w.find(down).unwrap()].transform.y, 17);
    assert_eq!(w.entities[w.find(block).unwrap()].transform.y, 30);
    for expected in [1u8, 2, 3, 0] {
        w.animate_enemy_shots();
        assert_eq!(w.entities[w.find(down).unwrap()].sprite.unwrap().frame, expected);
    }
    assert_eq!(w.entities[w.find(up).unwrap()].sprite.unwrap().frame, 0);
}

#[test]
fn explosions_expire() {
    let mut w = empty_world();
    w.temporaries = vec![
        Temporary { x: 1, y: 1, remaining_ms: 500 },
        Temporary { x: 2, y: 2, remaining_ms: 100 },
    ];
    w.update_temporaries(100);
    assert_eq!(w.temporaries, vec![Temporary { x: 1, y: 1, remaining_ms: 400 }]);
    w.update_temporaries(400);
    assert!(w.temporaries.is_empty());
}

#[test]
fn ids_run_out_gracefully() {
    let mut w = empty_world();
    w.next_id = u64::MAX;
    assert_eq!(w.spawn_player_shots(0, 0), None);
    assert!(w.entities.is_empty());
}

#[test]
fn apply_hits_reports_score_changes_only() {
    let mut w = empty_world();
    let b = spawn_block(&mut w, 0, 0);
    let s = w.spawn_player_shots(0, 0).unwrap();
    assert_eq!(w.apply_hits(&vec![Hit { projectile: s, target: b }]), None);
    assert!(w.entities.is_empty());
    let e = spawn_enemy(&mut w, 0, 0, 0, 0, Role::Shooter, 20);
    let s2 = w.spawn_player_shots(0, 0).unwrap();
    let s3 = w.spawn_player_shots(0, 0).unwrap();
    let hits = check_collisions(&w.entities);
    assert_eq!(hits, vec![Hit { projectile: s2, target: e }, Hit { projectile: s3, target: e }]);
    assert_eq!(w.apply_hits(&hits), Some(ScoreChanged { score: 20 }));
    assert_eq!(w.score, Score(20));
    assert!(w.entities.is_empty());
}

#[test]
fn game_state_transitions() {
    assert_eq!(GameState::MainMenu.next(true), GameState::Playing);
    assert_eq!(GameState::MainMenu.next(false), GameState::MainMenu);
    assert_eq!(GameState::GameOver.next(true), GameState::MainMenu);
    assert_eq!(GameState::Playing.next(true), GameState::Playing);
}

#[test]
fn a_tick_runs_the_systems_in_order() {
    let mut w = World::new();
    let r = w.tick(TickInput { left: false, right: true, fire: true }, 16);
    assert_eq!(r.score_changed, None);
    assert_eq!(r.direction_changed, None);
    assert_eq!(r.enemy_shot, None);
    let p = w.entities[w.player().unwrap()];
    assert_eq!(p.transform.x, 113);
    let shot = *w.entities.iter().find(|e| e.kind == Kind::PlayerShot).unwrap();
    assert_eq!((shot.transform.x, shot.transform.y), (113, 52));
    assert_eq!(w.move_timer.elapsed_ms, 16);
    assert_eq!(w.shoot_timer.elapsed_ms, 16);
}

#[test]
fn ticks_bring_enemy_fire_and_formation_steps() {
    let mut w = World::new();
    let idle = TickInput { left: false, right: false, fire: false };
    let x0 = w.entities[5].transform.x;
    let mut shots = 0;
    for _ in 0..63 {
        if w.tick(idle, 16).enemy_shot.is_some() {
            shots += 1;
        }
    }
    assert_eq!(shots, 1);
    assert!(w.entities[5].transform.x > x0);
    let enemy_shots = w.entities.iter().filter(|e| e.kind == Kind::EnemyShot).count();
    assert_eq!(enemy_shots, 1);
}

#[test]
fn on_hit_destroy_removes_only_its_target() {
    let mut w = empty_world();
    let a = spawn_block(&mut w, 1, 1);
    let b = w.spawn_enemy_shots(2, 2).unwrap();
    w.on_hit_destroy(a);
    assert!(w.find(a).is_none());
    assert!(w.find(b).is_some());
    w.on_hit_destroy(a);
    assert_eq!(w.entities.len(), 1);
}
