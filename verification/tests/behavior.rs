use game_core::geometry::{isqrt64, scale_to, vec_sub};
use game_core::grid::check_candidate;
use game_core::systems::detects;
use game_core::{
    Attack, Enemy, EnemyRecord, Motion, Movement, PassableTiles, Spawner, SpriteKey, Vec2,
};

fn all_true_grid(rows: usize, cols: usize) -> PassableTiles {
    let mut matrix: Vec<Vec<bool>> = Vec::new();
    for _ in 0..rows {
        let mut row: Vec<bool> = Vec::new();
        for _ in 0..cols {
            row.push(true);
        }
        matrix.push(row);
    }
    PassableTiles { tile_matrix: matrix }
}

fn enemy_at(x: i64, y: i64) -> EnemyRecord {
    EnemyRecord {
        enemy: Enemy::default(),
        pos: Vec2 { x, y },
        motion: Motion::default(),
    }
}

#[test]
fn detection_boundary_is_inside() {
    let enemy = Vec2 { x: 0, y: 0 };
    assert!(detects(enemy, Vec2 { x: 180, y: 0 }, 180));
    assert!(!detects(enemy, Vec2 { x: 181, y: 0 }, 180));
    assert!(detects(enemy, Vec2 { x: 108, y: 144 }, 180));
    assert!(!detects(enemy, Vec2 { x: 128, y: 128 }, 180));
}

#[test]
fn detection_examples() {
    let player = Vec2 { x: 0, y: 0 };
    assert!(detects(Vec2 { x: 50, y: 0 }, player, 180));
    assert!(!detects(Vec2 { x: 200, y: 0 }, player, 180));
}

#[test]
fn isqrt_exact_values() {
    assert_eq!(isqrt64(0), 0);
    assert_eq!(isqrt64(1), 1);
    assert_eq!(isqrt64(2), 1);
    assert_eq!(isqrt64(3), 1);
    assert_eq!(isqrt64(4), 2);
    assert_eq!(isqrt64(24), 4);
    assert_eq!(isqrt64(25), 5);
    assert_eq!(isqrt64(1_000_000_000_000), 1_000_000);
    assert_eq!(isqrt64(u64::MAX), 4_294_967_295);
}

#[test]
fn scale_exact_on_aligned_vectors() {
    let w = scale_to(Vec2 { x: -50, y: 0 }, 100);
    assert_eq!(w, Vec2 { x: -100, y: 0 });
    let w = scale_to(Vec2 { x: 300, y: -400 }, 50);
    assert_eq!(w, Vec2 { x: 30, y: -40 });
    let w = scale_to(Vec2 { x: 0, y: 7 }, -32);
    assert_eq!(w, Vec2 { x: 0, y: -32 });
}

#[test]
fn scale_speed_up_to_rounding() {
    let w = scale_to(Vec2 { x: 1, y: 1 }, 50);
    let n = w.x * w.x + w.y * w.y;
    assert!(n < 51 * 51, "squared speed {} too large", n);
    assert!(n >= 48 * 48 - 2, "squared speed {} too small", n);
}

#[test]
fn tracking_sets_flag_and_velocity() {
    let mut movement = Movement { random_movement_time: 2000, random_idle_time: 2000 };
    let mut rec = enemy_at(50, 0);
    movement.step(Vec2 { x: 0, y: 0 }, 16, &mut rec, 0, 0);
    assert!(rec.enemy.has_player_in_sight);
    assert_eq!(rec.motion.vel, Vec2 { x: -100, y: 0 });
    assert_eq!(rec.pos, Vec2 { x: 50, y: 0 });
}

#[test]
fn out_of_radius_clears_flag() {
    let mut movement = Movement { random_movement_time: 2000, random_idle_time: 2000 };
    let mut rec = enemy_at(200, 0);
    movement.step(Vec2 { x: 0, y: 0 }, 16, &mut rec, 0, 0);
    assert!(!rec.enemy.has_player_in_sight);
    assert_eq!(rec.motion.vel, Vec2 { x: 0, y: 0 });
}

#[test]
fn enemy_on_player_tracks_without_moving() {
    let mut movement = Movement { random_movement_time: 2000, random_idle_time: 2000 };
    let mut rec = enemy_at(40, 40);
    movement.step(Vec2 { x: 40, y: 40 }, 16, &mut rec, 0, 0);
    assert!(rec.enemy.has_player_in_sight);
    assert_eq!(rec.motion.vel, Vec2 { x: 0, y: 0 });
}

#[test]
fn idle_timer_elapsed_starts_wandering() {
    let mut movement = Movement { random_movement_time: 500, random_idle_time: 10 };
    let mut rec = enemy_at(1000, 0);
    movement.step(Vec2 { x: 0, y: 0 }, 16, &mut rec, 300, -400);
    assert!(!rec.enemy.has_player_in_sight);
    assert_eq!(rec.motion.vel, Vec2 { x: 30, y: -40 });
    assert_eq!(movement.random_movement_time, 2000);
}

#[test]
fn idle_timer_elapsed_degenerate_sample_still_moves() {
    let mut movement = Movement { random_movement_time: 500, random_idle_time: 0 };
    let mut rec = enemy_at(1000, 0);
    movement.step(Vec2 { x: 0, y: 0 }, 16, &mut rec, 0, 0);
    let v = rec.motion.vel;
    let n = v.x * v.x + v.y * v.y;
    assert_eq!(v, Vec2 { x: 50, y: 0 });
    assert!(n >= 48 * 48 - 2 && n < 51 * 51);
}

#[test]
fn idle_timer_counts_down_while_still() {
    let mut movement = Movement { random_movement_time: 500, random_idle_time: 2000 };
    let mut rec = enemy_at(1000, 0);
    movement.step(Vec2 { x: 0, y: 0 }, 300, &mut rec, 0, 0);
    assert_eq!(movement.random_idle_time, 1700);
    assert_eq!(rec.motion.vel, Vec2 { x: 0, y: 0 });
}

#[test]
fn wander_timer_counts_down_while_moving() {
    let mut movement = Movement { random_movement_time: 2000, random_idle_time: 2000 };
    let mut rec = enemy_at(1000, 0);
    rec.motion.vel = Vec2 { x: 50, y: 0 };
    movement.step(Vec2 { x: 0, y: 0 }, 500, &mut rec, 0, 0);
    assert_eq!(movement.random_movement_time, 1500);
    assert_eq!(rec.motion.vel, Vec2 { x: 50, y: 0 });
}

#[test]
fn wander_timer_elapsed_stops_and_rests() {
    let mut movement = Movement { random_movement_time: 400, random_idle_time: 77 };
    let mut rec = enemy_at(1000, 0);
    rec.motion.vel = Vec2 { x: 50, y: 0 };
    movement.step(Vec2 { x: 0, y: 0 }, 500, &mut rec, 0, 0);
    assert_eq!(rec.motion.vel, Vec2 { x: 0, y: 0 });
    // The idle timer was reset to its full duration and then wound down
    // by the same tick's elapsed time.
    assert_eq!(movement.random_idle_time, 1500);
}

#[test]
fn movement_run_without_grid_is_a_no_op() {
    let mut movement = Movement { random_movement_time: 123, random_idle_time: 456 };
    let mut enemies = vec![enemy_at(50, 0)];
    movement.run(Vec2 { x: 0, y: 0 }, 16, &mut enemies, None);
    assert!(!enemies[0].enemy.has_player_in_sight);
    assert_eq!(enemies[0].motion.vel, Vec2 { x: 0, y: 0 });
    assert_eq!(movement.random_movement_time, 123);
    assert_eq!(movement.random_idle_time, 456);
}

#[test]
fn movement_run_tracks_each_detected_enemy() {
    let grid = all_true_grid(4, 4);
    let mut movement = Movement { random_movement_time: 2000, random_idle_time: 2000 };
    let mut enemies = vec![enemy_at(50, 0), enemy_at(2000, 2000), enemy_at(0, -80)];
    movement.run(Vec2 { x: 0, y: 0 }, 16, &mut enemies, Some(&grid));
    assert!(enemies[0].enemy.has_player_in_sight);
    assert_eq!(enemies[0].motion.vel, Vec2 { x: -100, y: 0 });
    assert!(!enemies[1].enemy.has_player_in_sight);
    assert!(enemies[2].enemy.has_player_in_sight);
    assert_eq!(enemies[2].motion.vel, Vec2 { x: 0, y: 100 });
}

#[test]
fn wander_timer_is_shared_across_the_population() {
    // The countdowns live on the system, not on the enemy: the first
    // moving enemy winds the wander timer from 600 down to 200, so the
    // same tick's second moving enemy sees it expire and stops.
    let grid = all_true_grid(4, 4);
    let mut movement = Movement { random_movement_time: 600, random_idle_time: 2000 };
    let mut enemies = vec![enemy_at(1000, 0), enemy_at(0, 1000)];
    enemies[0].motion.vel = Vec2 { x: 50, y: 0 };
    enemies[1].motion.vel = Vec2 { x: 0, y: 50 };
    movement.run(Vec2 { x: 0, y: 0 }, 400, &mut enemies, Some(&grid));
    assert_eq!(enemies[0].motion.vel, Vec2 { x: 50, y: 0 });
    assert_eq!(enemies[1].motion.vel, Vec2 { x: 0, y: 0 });
    assert_eq!(movement.random_movement_time, 200);
    assert_eq!(movement.random_idle_time, 1600);
}

#[test]
fn attack_without_tracking_enemy_fires_nothing() {
    let attack = Attack;
    let enemies = vec![enemy_at(10, 10), enemy_at(500, 0)];
    assert!(attack.run(true, &enemies).is_none());
}

#[test]
fn attack_without_player_fires_nothing() {
    let attack = Attack;
    let mut rec = enemy_at(10, 10);
    rec.enemy.has_player_in_sight = true;
    rec.motion.vel = Vec2 { x: 100, y: 0 };
    assert!(attack.run(false, &vec![rec]).is_none());
}

#[test]
fn attack_fires_along_heading_with_spread() {
    let attack = Attack;
    let mut rec = enemy_at(10, 10);
    rec.enemy.has_player_in_sight = true;
    rec.motion.vel = Vec2 { x: 100, y: 0 };
    let p = attack.run(true, &vec![rec]).expect("one tracking enemy must fire");
    assert_eq!(p.pos, Vec2 { x: 10, y: 10 });
    assert_eq!(p.sprite, SpriteKey::Bubble);
    assert_eq!(p.motion.vel.y, 0);
    assert!(p.motion.vel.x >= 736 - 160 && p.motion.vel.x <= 736 + 160);
    assert_eq!(p.motion.acc.x, -2 * p.motion.vel.x);
    assert_eq!(p.motion.acc.y, 0);
    assert_eq!(p.motion.min_vel, Some(32));
    assert_eq!(p.motion.max_vel, None);
}

#[test]
fn attack_keeps_only_the_last_shot() {
    let attack = Attack;
    let mut first = enemy_at(10, 10);
    first.enemy.has_player_in_sight = true;
    first.motion.vel = Vec2 { x: 100, y: 0 };
    let mut last = enemy_at(30, 40);
    last.enemy.has_player_in_sight = true;
    last.motion.vel = Vec2 { x: 0, y: -100 };
    let p = attack.run(true, &vec![first, last]).expect("tracking enemies must fire");
    assert_eq!(p.pos, Vec2 { x: 30, y: 40 });
    assert_eq!(p.motion.vel.x, 0);
    assert!(p.motion.vel.y <= -(736 - 160) && p.motion.vel.y >= -(736 + 160));
}

#[test]
fn tracking_enemy_with_no_heading_does_not_fire() {
    let attack = Attack;
    let mut rec = enemy_at(10, 10);
    rec.enemy.has_player_in_sight = true;
    assert!(attack.run(true, &vec![rec]).is_none());
}

#[test]
fn candidate_acceptance_on_single_cell_grid() {
    let grid = PassableTiles { tile_matrix: vec![vec![true]] };
    assert!(check_candidate(&grid, Vec2 { x: 10, y: 10 }));
    assert!(!check_candidate(&grid, Vec2 { x: -5, y: -5 }));
    assert!(!check_candidate(&grid, Vec2 { x: 33, y: 10 }));
    assert!(!check_candidate(&grid, Vec2 { x: 10, y: 40 }));
}

#[test]
fn spawner_at_population_cap_emits_nothing() {
    let spawner = Spawner;
    let grid = all_true_grid(200, 200);
    let players = vec![Vec2 { x: 1600, y: 1600 }];
    assert_eq!(spawner.run(&players, 5, Some(&grid)).len(), 0);
    assert_eq!(spawner.run(&players, 7, Some(&grid)).len(), 0);
}

#[test]
fn spawner_without_grid_emits_nothing() {
    let spawner = Spawner;
    let players = vec![Vec2 { x: 1600, y: 1600 }];
    assert_eq!(spawner.run(&players, 0, None).len(), 0);
}

#[test]
fn spawner_emits_default_enemy_on_passable_tile() {
    let spawner = Spawner;
    let grid = all_true_grid(200, 200);
    let players = vec![Vec2 { x: 1600, y: 1600 }];
    let spawns = spawner.run(&players, 0, Some(&grid));
    assert_eq!(spawns.len(), 1);
    let sp = &spawns[0];
    assert!(sp.pos.x >= 1600 - 160 && sp.pos.x <= 1600 + 160);
    assert!(sp.pos.y >= 1600 - 160 && sp.pos.y <= 1600 + 160);
    assert_eq!(sp.enemy.hp, 120);
    assert!(!sp.enemy.has_player_in_sight);
    assert_eq!(sp.motion.vel, Vec2 { x: 0, y: 0 });
    assert_eq!(sp.motion.acc, Vec2 { x: 0, y: 0 });
    assert_eq!(sp.motion.min_vel, None);
    assert_eq!(sp.motion.max_vel, None);
    assert_eq!(sp.sprite, SpriteKey::PenguinFront);
    assert!(grid.tile_matrix[(sp.pos.y / 32) as usize][(sp.pos.x / 32) as usize]);
}

#[test]
fn spawner_rejects_unwalkable_candidates() {
    let spawner = Spawner;
    // A single passable cell far from the player: every sampled candidate
    // near the player lands outside the grid and is rejected.
    let grid = PassableTiles { tile_matrix: vec![vec![true]] };
    let players = vec![Vec2 { x: 1600, y: 1600 }];
    let spawns = spawner.run(&players, 0, Some(&grid));
    assert_eq!(spawns.len(), 0);
}

#[test]
fn spawner_never_fills_past_the_cap() {
    let spawner = Spawner;
    let grid = all_true_grid(200, 200);
    let players = vec![Vec2 { x: 1600, y: 1600 }; 10];
    let spawns = spawner.run(&players, 3, Some(&grid));
    assert!(3 + spawns.len() <= 5, "{} spawns would pass the cap", spawns.len());
}

#[test]
fn tick_without_grid_changes_nothing() {
    let mut movement = Movement { random_movement_time: 321, random_idle_time: 654 };
    let mut enemies = vec![enemy_at(50, 0)];
    let players = vec![Vec2 { x: 0, y: 0 }];
    let fx = game_core::tick(&mut movement, &players, 16, &mut enemies, None);
    assert!(fx.spawns.is_empty());
    assert!(fx.projectile.is_none());
    assert_eq!(movement.random_movement_time, 321);
    assert!(!enemies[0].enemy.has_player_in_sight);
}

#[test]
fn tick_pursues_fires_and_spawns() {
    let mut movement = Movement { random_movement_time: 2000, random_idle_time: 2000 };
    let grid = all_true_grid(200, 200);
    let mut enemies = vec![enemy_at(1650, 1600)];
    let players = vec![Vec2 { x: 1600, y: 1600 }];
    let fx = game_core::tick(&mut movement, &players, 16, &mut enemies, Some(&grid));
    assert!(enemies[0].enemy.has_player_in_sight);
    assert_eq!(enemies[0].motion.vel, Vec2 { x: -100, y: 0 });
    let p = fx.projectile.expect("a tracking enemy must fire");
    assert_eq!(p.pos, Vec2 { x: 1650, y: 1600 });
    assert!(enemies.len() + fx.spawns.len() <= 5);
}

#[test]
fn sub_is_exact() {
    let d = vec_sub(Vec2 { x: 3, y: -9 }, Vec2 { x: 10, y: 5 });
    assert_eq!(d, Vec2 { x: -7, y: -14 });
}

#[test]
fn sprite_keys_name_their_textures() {
    assert_eq!(SpriteKey::PenguinFront.file_name(), "penguinFront.png");
    assert_eq!(SpriteKey::Bubble.file_name(), "bubble.png");
}

#[test]
fn default_enemy_identity() {
    let e = Enemy::default();
    assert_eq!(e.hp, 120);
    assert!(!e.has_player_in_sight);
}
