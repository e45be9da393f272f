use ball::direction::Direction;
use ball::entities::{Enemy, Player, Star};
use ball::geometry::Point;
use ball::movement::Keys;
use ball::spawn::{spawn_enemies, spawn_player, spawn_star};
use ball::world::{simulation_step, simulation_step_with, Draws, StepReport, World};

const U: i64 = 1_000_000_000;
const W: i64 = 800 * U;
const H: i64 = 600 * U;
const NO_KEYS: Keys = Keys { up: false, down: false, left: false, right: false };
const NO_DRAWS: Draws =
    Draws { star_x: 0, star_y: 0, enemy_x: 0, enemy_y: 0, enemy_dx: 0, enemy_dy: 0 };

fn quiet() -> StepReport {
    StepReport {
        bounces: 0,
        player_hit: false,
        collected: Vec::new(),
        score_changed: None,
        star_spawned: false,
        enemy_spawned: false,
    }
}

fn enemy(x: i64, y: i64, dx: i32, dy: i32) -> Enemy {
    Enemy { position: Point { x, y }, direction: Direction::from_vector(dx, dy).unwrap() }
}

#[test]
fn a_new_world_is_empty() {
    let world = World::new();
    assert_eq!(world.player, None);
    assert!(world.enemies.is_empty());
    assert!(world.stars.is_empty());
    assert_eq!(world.score.value(), 0);
    assert_eq!(world.star_timer.elapsed(), 0);
    assert_eq!(world.enemy_timer.elapsed(), 0);
}

#[test]
fn a_tick_on_an_empty_world_only_advances_the_timers() {
    let mut world = World::new();
    let report = simulation_step_with(&mut world, 16_000_000, NO_KEYS, W, H, NO_DRAWS);
    assert_eq!(report, quiet());
    assert_eq!(world.player, None);
    assert!(world.enemies.is_empty());
    assert!(world.stars.is_empty());
    assert_eq!(world.star_timer.elapsed(), 16_000_000);
    assert_eq!(world.enemy_timer.elapsed(), 16_000_000);
}

#[test]
fn enemy_at_the_reach_removes_the_player_and_no_star_is_collected() {
    let mut world = World::new();
    world.player = Some(Player { position: Point { x: 100 * U, y: 100 * U } });
    world.enemies.push(enemy(100 * U, 164 * U, 1, 0));
    world.stars.push(Star { position: Point { x: 100 * U, y: 100 * U } });
    let report = simulation_step_with(&mut world, 0, NO_KEYS, W, H, NO_DRAWS);
    assert!(report.player_hit);
    assert!(report.collected.is_empty());
    assert_eq!(report.score_changed, None);
    assert_eq!(world.player, None);
    assert_eq!(world.stars.len(), 1);
    assert_eq!(world.score.value(), 0);
}

#[test]
fn a_dead_player_stays_dead() {
    let mut world = World::new();
    world.stars.push(Star { position: Point { x: 400 * U, y: 300 * U } });
    let held = Keys { up: true, down: false, left: false, right: true };
    for _ in 0..5 {
        let report = simulation_step_with(&mut world, 16_000_000, held, W, H, NO_DRAWS);
        assert!(!report.player_hit);
        assert!(report.collected.is_empty());
        assert_eq!(world.player, None);
    }
    assert_eq!(world.stars.len(), 1);
}

#[test]
fn the_rules_of_a_tick_run_in_order() {
    let mut world = World::new();
    world.player = Some(Player { position: Point { x: 100 * U, y: 100 * U } });
    world.enemies.push(enemy(700 * U, 500 * U, 1, 0));
    world.enemies.push(enemy(400 * U, 40 * U, 0, -1));
    world.stars.push(Star { position: Point { x: 248 * U, y: 100 * U } });
    world.stars.push(Star { position: Point { x: 248 * U + 1, y: 100 * U } });
    world.stars.push(Star { position: Point { x: 100 * U, y: 100 * U } });
    let held = Keys { up: false, down: false, left: false, right: true };
    let report = simulation_step_with(&mut world, 200_000_000, held, W, H, NO_DRAWS);
    assert_eq!(
        report,
        StepReport {
            bounces: 1,
            player_hit: false,
            collected: vec![0],
            score_changed: Some(1),
            star_spawned: false,
            enemy_spawned: false,
        }
    );
    assert_eq!(world.player, Some(Player { position: Point { x: 200 * U, y: 100 * U } }));
    assert_eq!(world.enemies[0], enemy(740 * U, 500 * U, 1, 0));
    assert_eq!(world.enemies[1], enemy(400 * U, 32 * U, 0, 1));
    assert_eq!(
        world.stars,
        vec![
            Star { position: Point { x: 248 * U + 1, y: 100 * U } },
            Star { position: Point { x: 100 * U, y: 100 * U } }
        ]
    );
    assert_eq!(world.score.value(), 1);
    assert_eq!(world.star_timer.elapsed(), 200_000_000);
}

#[test]
fn the_player_is_confined_before_the_hit_test() {
    let mut world = World::new();
    world.player = Some(Player { position: Point { x: 32 * U, y: 300 * U } });
    world.enemies.push(enemy(97 * U, 300 * U, 0, 1));
    let held = Keys { up: false, down: false, left: true, right: false };
    let report = simulation_step_with(&mut world, 1_000_000_000, held, W, H, NO_DRAWS);
    assert!(!report.player_hit);
    assert_eq!(world.player, Some(Player { position: Point { x: 32 * U, y: 300 * U } }));
}

#[test]
fn timers_spawn_with_the_draws_given() {
    let mut world = World::new();
    let draws = Draws {
        star_x: 0x8000_0000,
        star_y: 0x4000_0000,
        enemy_x: 0xC000_0000,
        enemy_y: 0x8000_0000,
        enemy_dx: 4 << 8,
        enemy_dy: 3 << 8,
    };
    let first = simulation_step_with(&mut world, 950_000_000, NO_KEYS, W, H, draws);
    assert_eq!(first, quiet());
    let second = simulation_step_with(&mut world, 100_000_000, NO_KEYS, W, H, draws);
    assert!(second.star_spawned);
    assert!(!second.enemy_spawned);
    assert_eq!(world.stars, vec![Star { position: Point { x: 400 * U, y: 150 * U } }]);
    assert!(world.enemies.is_empty());
    let third = simulation_step_with(&mut world, 3_950_000_000, NO_KEYS, W, H, draws);
    assert!(third.star_spawned);
    assert!(third.enemy_spawned);
    assert_eq!(world.stars.len(), 2);
    assert_eq!(world.enemies, vec![enemy(600 * U, 300 * U, 4, 3)]);
    assert_eq!(world.enemies[0].direction.x(), 800_000_000);
    assert_eq!(world.star_timer.elapsed(), 0);
    assert_eq!(world.enemy_timer.elapsed(), 0);
}

#[test]
fn an_enemy_timer_that_fired_spawns_nothing_without_a_direction() {
    let mut world = World::new();
    let report = simulation_step_with(&mut world, 5_000_000_000, NO_KEYS, W, H, NO_DRAWS);
    assert!(report.star_spawned);
    assert!(!report.enemy_spawned);
    assert!(world.enemies.is_empty());
    assert_eq!(world.stars, vec![Star { position: Point { x: 0, y: 0 } }]);
}

#[test]
fn a_spawned_enemy_is_not_moved_in_the_tick_that_spawned_it() {
    let mut world = World::new();
    let draws =
        Draws { star_x: 0, star_y: 0, enemy_x: 0, enemy_y: 0, enemy_dx: 256, enemy_dy: 0 };
    simulation_step_with(&mut world, 5_000_000_000, NO_KEYS, W, H, draws);
    assert_eq!(world.enemies, vec![enemy(0, 0, 1, 0)]);
    let report = simulation_step_with(&mut world, 0, NO_KEYS, W, H, draws);
    assert_eq!(report.bounces, 1);
    assert_eq!(world.enemies, vec![enemy(32 * U, 32 * U, -1, 0)]);
}

#[test]
fn the_score_never_falls_over_a_run_of_ticks() {
    let mut world = World::new();
    spawn_player(&mut world.player, W, H);
    spawn_enemies(&mut world.enemies, W, H);
    spawn_star(&mut world.stars, W, H);
    let held = Keys { up: true, down: false, left: false, right: true };
    let mut last = world.score.value();
    for _ in 0..600 {
        let stars_before = world.stars.len();
        let alive_before = world.player.is_some();
        let report = simulation_step(&mut world, 16_666_667, held, W, H);
        let now = world.score.value();
        assert!(now >= last);
        assert_eq!((now - last) as usize, report.collected.len());
        assert_eq!(report.score_changed, if now != last { Some(now) } else { None });
        assert_eq!(
            world.stars.len(),
            stars_before - report.collected.len() + if report.star_spawned { 1 } else { 0 }
        );
        assert!(alive_before || world.player.is_none());
        assert_eq!(report.player_hit, alive_before && world.player.is_none());
        if let Some(p) = world.player {
            assert!(32 * U <= p.position.x && p.position.x <= W - 32 * U);
            assert!(32 * U <= p.position.y && p.position.y <= H - 32 * U);
        }
        last = now;
    }
    assert_eq!(world.star_timer.elapsed(), (600u64 * 16_666_667) % 1_000_000_000);
    assert!(world.stars.len() <= 20);
}
