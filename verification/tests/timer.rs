use ball::timer::{tick_enemy_timer, tick_start, EnemySpawnTimer, SpawnTimer, StarSpawnTimer};

const SECOND: u64 = 1_000_000_000;

#[test]
fn timers_start_empty() {
    let star = StarSpawnTimer::default();
    assert_eq!(star.elapsed(), 0);
    assert!(!star.finished());
    assert_eq!(star.times_finished_this_tick(), 0);
    let enemy = EnemySpawnTimer::default();
    assert_eq!(enemy.elapsed(), 0);
    assert!(!enemy.finished());
}

#[test]
fn star_timer_fires_when_the_second_is_full() {
    let mut timer = StarSpawnTimer::default();
    tick_start(&mut timer, 950_000_000);
    assert!(!timer.finished());
    assert_eq!(timer.elapsed(), 950_000_000);
    tick_start(&mut timer, 100_000_000);
    assert!(timer.finished());
    assert_eq!(timer.times_finished_this_tick(), 1);
    assert_eq!(timer.elapsed(), 50_000_000);
    tick_start(&mut timer, 100_000_000);
    assert!(!timer.finished());
    assert_eq!(timer.elapsed(), 150_000_000);
}

#[test]
fn pieces_that_sum_to_one_period_fire_once() {
    let mut timer = StarSpawnTimer::default();
    let mut fired = 0;
    for dt in [250_000_000, 250_000_000, 125_000_000, 375_000_000] {
        tick_start(&mut timer, dt);
        fired += timer.times_finished_this_tick();
    }
    assert_eq!(fired, 1);
    assert_eq!(timer.elapsed(), 0);
}

#[test]
fn pieces_that_sum_to_two_periods_fire_twice() {
    let mut timer = StarSpawnTimer::default();
    let mut fired = 0;
    let mut ticks_that_fired = 0;
    for dt in [600_000_000, 600_000_000, 300_000_000, 500_000_000] {
        tick_start(&mut timer, dt);
        fired += timer.times_finished_this_tick();
        if timer.finished() {
            ticks_that_fired += 1;
        }
    }
    assert_eq!(fired, 2);
    assert_eq!(ticks_that_fired, 2);
    assert_eq!(timer.elapsed(), 0);
}

#[test]
fn one_long_tick_counts_every_period_in_it() {
    let mut timer = StarSpawnTimer::default();
    tick_start(&mut timer, 2 * SECOND);
    assert!(timer.finished());
    assert_eq!(timer.times_finished_this_tick(), 2);
    assert_eq!(timer.elapsed(), 0);
    tick_start(&mut timer, 3 * SECOND + 7);
    assert_eq!(timer.times_finished_this_tick(), 3);
    assert_eq!(timer.elapsed(), 7);
}

#[test]
fn a_tick_of_no_time_does_not_fire() {
    let mut timer = StarSpawnTimer::default();
    tick_start(&mut timer, SECOND);
    assert!(timer.finished());
    tick_start(&mut timer, 0);
    assert!(!timer.finished());
    assert_eq!(timer.elapsed(), 0);
}

#[test]
fn the_longest_tick_is_counted_in_full() {
    let mut timer = StarSpawnTimer::default();
    tick_start(&mut timer, 999_999_999);
    tick_start(&mut timer, u64::MAX);
    let sum = 999_999_999u128 + u64::MAX as u128;
    assert_eq!(timer.times_finished_this_tick() as u128, sum / SECOND as u128);
    assert_eq!(timer.elapsed() as u128, sum % SECOND as u128);
}

#[test]
fn enemy_timer_fires_every_five_seconds() {
    let mut timer = EnemySpawnTimer::default();
    for _ in 0..4 {
        tick_enemy_timer(&mut timer, SECOND);
        assert!(!timer.finished());
    }
    assert_eq!(timer.elapsed(), 4 * SECOND);
    tick_enemy_timer(&mut timer, SECOND + 1);
    assert!(timer.finished());
    assert_eq!(timer.times_finished_this_tick(), 1);
    assert_eq!(timer.elapsed(), 1);
}

#[test]
fn a_timer_needs_a_period() {
    assert_eq!(SpawnTimer::repeating(0), None);
    let mut timer = SpawnTimer::repeating(3).unwrap();
    assert_eq!(timer.period(), 3);
    timer.tick(2);
    assert!(!timer.finished());
    timer.tick(8);
    assert_eq!(timer.times_finished_this_tick(), 3);
    assert_eq!(timer.elapsed(), 1);
}

#[test]
fn a_period_of_one_nanosecond_counts_every_nanosecond() {
    let mut timer = SpawnTimer::repeating(1).unwrap();
    timer.tick(u64::MAX);
    assert_eq!(timer.times_finished_this_tick(), u64::MAX);
    assert_eq!(timer.elapsed(), 0);
}
