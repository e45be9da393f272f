use ball::direction::Direction;
use ball::entities::{Enemy, Player};
use ball::geometry::Point;
use ball::movement::{
    confine_enemy_movement, confine_player_movement, enemy_movement, player_movement, Keys,
};

const U: i64 = 1_000_000_000;
const SECOND: u64 = 1_000_000_000;

fn keys(up: bool, down: bool, left: bool, right: bool) -> Keys {
    Keys { up, down, left, right }
}

fn player_at(x: i64, y: i64) -> Option<Player> {
    Some(Player { position: Point { x, y } })
}

fn enemy(x: i64, y: i64, dx: i32, dy: i32) -> Enemy {
    Enemy { position: Point { x, y }, direction: Direction::from_vector(dx, dy).unwrap() }
}

#[test]
fn player_moves_right_by_speed_times_time() {
    let mut player = player_at(0, 0);
    player_movement(&mut player, keys(false, false, false, true), 1_000_000);
    assert_eq!(player, player_at(500_000_000, 0));
}

#[test]
fn each_single_key_moves_by_five_hundred_units_a_second() {
    let mut up = player_at(100 * U, 100 * U);
    player_movement(&mut up, keys(true, false, false, false), SECOND);
    assert_eq!(up, player_at(100 * U, 600 * U));
    let mut down = player_at(100 * U, 100 * U);
    player_movement(&mut down, keys(false, true, false, false), SECOND);
    assert_eq!(down, player_at(100 * U, -400 * U));
    let mut left = player_at(100 * U, 100 * U);
    player_movement(&mut left, keys(false, false, true, false), SECOND);
    assert_eq!(left, player_at(-400 * U, 100 * U));
    let mut right = player_at(100 * U, 100 * U);
    player_movement(&mut right, keys(false, false, false, true), SECOND);
    assert_eq!(right, player_at(600 * U, 100 * U));
}

#[test]
fn no_keys_or_opposite_keys_leave_the_player_in_place() {
    for held in [
        keys(false, false, false, false),
        keys(true, true, false, false),
        keys(false, false, true, true),
        keys(true, true, true, true),
    ] {
        let mut player = player_at(7 * U, -3 * U);
        player_movement(&mut player, held, SECOND);
        assert_eq!(player, player_at(7 * U, -3 * U));
    }
}

#[test]
fn three_keys_move_along_the_axis_that_is_left() {
    let mut player = player_at(0, 0);
    player_movement(&mut player, keys(true, true, false, true), SECOND);
    assert_eq!(player, player_at(500 * U, 0));
}

#[test]
fn two_orthogonal_keys_move_along_the_diagonal() {
    let mut player = player_at(0, 0);
    player_movement(&mut player, keys(true, false, false, true), SECOND);
    assert_eq!(player, player_at(353_553_390_500, 353_553_390_500));
    let mut back = player_at(0, 0);
    player_movement(&mut back, keys(false, true, true, false), SECOND);
    assert_eq!(back, player_at(-353_553_390_500, -353_553_390_500));
}

#[test]
fn diagonal_step_is_as_long_as_a_straight_step_up_to_rounding() {
    let mut player = player_at(0, 0);
    let dt: u64 = 16_666_667;
    player_movement(&mut player, keys(true, false, false, true), dt);
    let p = player.unwrap().position;
    assert_eq!(p.x, p.y);
    let straight = 500i128 * dt as i128;
    let squared = 2 * (p.x as i128) * (p.x as i128);
    assert!(squared <= straight * straight);
    let next = 2 * (p.x as i128 + 2) * (p.x as i128 + 2);
    assert!(next > straight * straight);
}

#[test]
fn a_tick_of_no_time_moves_nothing() {
    let mut player = player_at(5, 6);
    player_movement(&mut player, keys(true, false, false, true), 0);
    assert_eq!(player, player_at(5, 6));
}

#[test]
fn movement_without_a_player_does_nothing() {
    let mut player: Option<Player> = None;
    player_movement(&mut player, keys(true, false, false, false), SECOND);
    assert_eq!(player, None);
    confine_player_movement(&mut player, 800 * U, 600 * U);
    assert_eq!(player, None);
}

#[test]
fn movement_stops_at_the_end_of_the_number_range() {
    let mut player = player_at(i64::MAX - 5, i64::MIN + 5);
    player_movement(&mut player, keys(false, true, false, true), u64::MAX);
    assert_eq!(player, player_at(i64::MAX, i64::MIN));
}

#[test]
fn player_is_clamped_into_the_window() {
    let mut player = player_at(-5, 900 * U);
    confine_player_movement(&mut player, 800 * U, 600 * U);
    assert_eq!(player, player_at(32 * U, 568 * U));
}

#[test]
fn player_inside_the_window_is_left_alone() {
    let mut player = player_at(32 * U, 568 * U);
    confine_player_movement(&mut player, 800 * U, 600 * U);
    assert_eq!(player, player_at(32 * U, 568 * U));
    let mut middle = player_at(400 * U, 300 * U);
    confine_player_movement(&mut middle, 800 * U, 600 * U);
    assert_eq!(middle, player_at(400 * U, 300 * U));
}

#[test]
fn confining_twice_is_confining_once() {
    for (x, y) in [(-900 * U, 10), (i64::MAX, i64::MIN), (50 * U, 50 * U), (801 * U, 599 * U)] {
        let mut once = player_at(x, y);
        confine_player_movement(&mut once, 800 * U, 600 * U);
        let mut twice = once;
        confine_player_movement(&mut twice, 800 * U, 600 * U);
        assert_eq!(once, twice);
    }
}

#[test]
fn a_window_narrower_than_the_player_pins_it_to_the_far_margin() {
    let mut player = player_at(0, 0);
    confine_player_movement(&mut player, 40 * U, 600 * U);
    assert_eq!(player, player_at(8 * U, 32 * U));
}

#[test]
fn enemies_move_by_two_hundred_units_a_second() {
    let mut enemies = vec![enemy(100 * U, 100 * U, 1, 0), enemy(0, 0, 3, 4), enemy(0, 0, 0, -7)];
    enemy_movement(&mut enemies, SECOND / 2);
    assert_eq!(enemies[0].position, Point { x: 200 * U, y: 100 * U });
    assert_eq!(enemies[1].position, Point { x: 60 * U, y: 80 * U });
    assert_eq!(enemies[2].position, Point { x: 0, y: -100 * U });
    assert_eq!(enemies[1].direction, Direction::from_vector(3, 4).unwrap());
}

#[test]
fn enemy_movement_on_an_empty_list_does_nothing() {
    let mut enemies: Vec<Enemy> = Vec::new();
    enemy_movement(&mut enemies, SECOND);
    assert_eq!(confine_enemy_movement(&mut enemies, 800 * U, 600 * U), 0);
    assert!(enemies.is_empty());
}

#[test]
fn enemy_past_the_left_edge_bounces_once() {
    let mut enemies = vec![enemy(10 * U, 300 * U, -3, 4)];
    let sounds = confine_enemy_movement(&mut enemies, 800 * U, 600 * U);
    assert_eq!(sounds, 1);
    assert_eq!(enemies[0].position, Point { x: 32 * U, y: 300 * U });
    assert_eq!(enemies[0].direction.x(), 600_000_000);
    assert_eq!(enemies[0].direction.y(), 800_000_000);
}

#[test]
fn enemy_past_two_edges_asks_for_one_sound() {
    let mut enemies = vec![enemy(10 * U, 700 * U, -3, 4)];
    let sounds = confine_enemy_movement(&mut enemies, 800 * U, 600 * U);
    assert_eq!(sounds, 1);
    assert_eq!(enemies[0].position, Point { x: 32 * U, y: 568 * U });
    assert_eq!(enemies[0].direction.x(), 600_000_000);
    assert_eq!(enemies[0].direction.y(), -800_000_000);
}

#[test]
fn each_bouncing_enemy_asks_for_its_own_sound() {
    let mut enemies = vec![
        enemy(900 * U, 300 * U, 1, 0),
        enemy(400 * U, 300 * U, 1, 0),
        enemy(400 * U, 0, 0, -1),
        enemy(32 * U, 568 * U, -1, 1),
    ];
    let sounds = confine_enemy_movement(&mut enemies, 800 * U, 600 * U);
    assert_eq!(sounds, 2);
    assert_eq!(enemies[0].position, Point { x: 768 * U, y: 300 * U });
    assert_eq!(enemies[0].direction.x(), -U);
    assert_eq!(enemies[1], enemy(400 * U, 300 * U, 1, 0));
    assert_eq!(enemies[2].position, Point { x: 400 * U, y: 32 * U });
    assert_eq!(enemies[2].direction.y(), U);
    assert_eq!(enemies[3], enemy(32 * U, 568 * U, -1, 1));
}

#[test]
fn a_bounce_keeps_the_length_of_the_direction() {
    let mut enemies = vec![enemy(0, 0, -5, -12)];
    let before = enemies[0].direction;
    confine_enemy_movement(&mut enemies, 800 * U, 600 * U);
    let after = enemies[0].direction;
    assert_eq!(after.x(), -before.x());
    assert_eq!(after.y(), -before.y());
    assert_eq!(
        after.x() as i128 * after.x() as i128 + after.y() as i128 * after.y() as i128,
        before.x() as i128 * before.x() as i128 + before.y() as i128 * before.y() as i128
    );
}

#[test]
fn in_a_window_narrower_than_an_enemy_every_tick_is_a_bounce() {
    let mut enemies = vec![enemy(10 * U, 300 * U, 1, 0)];
    let sounds = confine_enemy_movement(&mut enemies, 40 * U, 600 * U);
    assert_eq!(sounds, 1);
    assert_eq!(enemies[0].position, Point { x: 8 * U, y: 300 * U });
    assert_eq!(enemies[0].direction.x(), -U);
}
