use ball::contact::{enemy_hit, player_collect_star, update_score};
use ball::direction::Direction;
use ball::entities::{Enemy, Player, Score, Star};
use ball::geometry::Point;

const U: i64 = 1_000_000_000;

fn player_at(x: i64, y: i64) -> Option<Player> {
    Some(Player { position: Point { x, y } })
}

fn enemy_at(x: i64, y: i64) -> Enemy {
    Enemy { position: Point { x, y }, direction: Direction::from_vector(1, 0).unwrap() }
}

fn star_at(x: i64, y: i64) -> Star {
    Star { position: Point { x, y } }
}

#[test]
fn enemy_at_exactly_the_reach_hits() {
    let mut player = player_at(100 * U, 100 * U);
    let enemies = vec![enemy_at(100 * U, 164 * U)];
    assert!(enemy_hit(&mut player, &enemies));
    assert_eq!(player, None);
}

#[test]
fn enemy_one_step_beyond_the_reach_misses() {
    let mut player = player_at(100 * U, 100 * U);
    let enemies = vec![enemy_at(100 * U, 164 * U + 1)];
    assert!(!enemy_hit(&mut player, &enemies));
    assert_eq!(player, player_at(100 * U, 100 * U));
}

#[test]
fn enemy_on_a_slant_is_measured_by_distance() {
    let mut near = player_at(0, 0);
    assert!(enemy_hit(&mut near, &vec![enemy_at(-38_400_000_000, 51_200_000_000)]));
    let mut far = player_at(0, 0);
    assert!(!enemy_hit(&mut far, &vec![enemy_at(-38_400_000_000, 51_200_000_001)]));
    let mut corner = player_at(0, 0);
    assert!(!enemy_hit(&mut corner, &vec![enemy_at(64 * U, 64 * U)]));
}

#[test]
fn several_enemies_in_reach_hit_once() {
    let mut player = player_at(0, 0);
    let enemies = vec![enemy_at(500 * U, 0), enemy_at(10 * U, 0), enemy_at(0, 10 * U)];
    assert!(enemy_hit(&mut player, &enemies));
    assert_eq!(player, None);
    assert!(!enemy_hit(&mut player, &enemies));
    assert_eq!(player, None);
}

#[test]
fn no_enemies_or_no_player_means_no_hit() {
    let mut player = player_at(0, 0);
    assert!(!enemy_hit(&mut player, &Vec::new()));
    assert_eq!(player, player_at(0, 0));
    let mut gone: Option<Player> = None;
    assert!(!enemy_hit(&mut gone, &vec![enemy_at(0, 0)]));
    assert_eq!(gone, None);
}

#[test]
fn stars_in_reach_are_collected_and_counted() {
    let player = player_at(100 * U, 100 * U);
    let mut stars = vec![
        star_at(100 * U, 148 * U),
        star_at(100 * U, 148 * U + 1),
        star_at(100 * U, 100 * U),
        star_at(300 * U, 300 * U),
        star_at(52 * U, 100 * U),
    ];
    let mut score = Score::default();
    let taken = player_collect_star(&player, &mut stars, &mut score);
    assert_eq!(taken, vec![0, 2, 4]);
    assert_eq!(stars, vec![star_at(100 * U, 148 * U + 1), star_at(300 * U, 300 * U)]);
    assert_eq!(score.value(), 3);
}

#[test]
fn no_star_in_reach_changes_nothing() {
    let player = player_at(0, 0);
    let mut stars = vec![star_at(48 * U + 1, 0), star_at(0, -48 * U - 1)];
    let mut score = Score::new(7);
    let taken = player_collect_star(&player, &mut stars, &mut score);
    assert!(taken.is_empty());
    assert_eq!(stars, vec![star_at(48 * U + 1, 0), star_at(0, -48 * U - 1)]);
    assert_eq!(score.value(), 7);
}

#[test]
fn without_a_player_no_star_is_collected() {
    let mut stars = vec![star_at(0, 0)];
    let mut score = Score::default();
    let taken = player_collect_star(&None, &mut stars, &mut score);
    assert!(taken.is_empty());
    assert_eq!(stars, vec![star_at(0, 0)]);
    assert_eq!(score.value(), 0);
}

#[test]
fn score_stops_at_the_largest_count() {
    let player = player_at(0, 0);
    let mut stars = vec![star_at(0, 0), star_at(1, 1), star_at(2, 2)];
    let mut score = Score::new(u32::MAX - 1);
    let taken = player_collect_star(&player, &mut stars, &mut score);
    assert_eq!(taken, vec![0, 1, 2]);
    assert!(stars.is_empty());
    assert_eq!(score.value(), u32::MAX);
}

#[test]
fn score_increment_adds_one() {
    let mut score = Score::default();
    assert_eq!(score.value(), 0);
    score.increment();
    score.increment();
    assert_eq!(score.value(), 2);
    assert_eq!(score, Score::new(2));
}

#[test]
fn score_is_reported_only_when_it_changed() {
    let score = Score::new(4);
    assert_eq!(update_score(&score, 4), None);
    assert_eq!(update_score(&score, 3), Some(4));
    assert_eq!(update_score(&Score::default(), 0), None);
}
