//! Motion of the player and of the enemies, and their confinement to the
//! window.

use vstd::prelude::*;
use crate::direction::{advanced, heading, is_unit, Direction};
use crate::entities::{models, Enemy, EnemyModel, Player};
use crate::geometry::{clamp_coordinate, confine_point, confined, outside, Point};
use crate::rules::{ENEMY_SIZE, ENEMY_SPEED, PLAYER_SIZE, PLAYER_SPEED};

verus! {

/// The movement keys that are held down.
#[derive(Clone, Copy, Debug, PartialEq, Eq, Structural)]
pub struct Keys {
    pub up: bool,
    pub down: bool,
    pub left: bool,
    pub right: bool,
}

/// The sum of the axis vectors of the keys held: right and up count as
/// plus one, left and down as minus one.
pub open spec fn key_sum(keys: Keys) -> (int, int) {
    (
        (if keys.right { 1int } else { 0int }) - (if keys.left { 1int } else { 0int }),
        (if keys.up { 1int } else { 0int }) - (if keys.down { 1int } else { 0int }),
    )
}

/// The player after `dt` nanoseconds with the given keys held: moved at
/// `PLAYER_SPEED` along the heading of the key sum, or left in place where
/// the sum is zero or there is no player.
pub open spec fn moved_player(player: Option<Player>, keys: Keys, dt: int) -> Option<Player> {
    match player {
        None => None,
        Some(p) => {
            let sum = key_sum(keys);
            if sum.0 == 0 && sum.1 == 0 {
                Some(p)
            } else {
                Some(
                    Player {
                        position: advanced(
                            p.position,
                            heading(sum.0, sum.1),
                            PLAYER_SPEED as int,
                            dt,
                        ),
                    },
                )
            }
        },
    }
}

/// The player clamped into the window, half its size away from each edge.
pub open spec fn confined_player(player: Option<Player>, width: int, height: int) -> Option<
    Player,
> {
    match player {
        None => None,
        Some(p) => Some(Player { position: confined(p.position, PLAYER_SIZE / 2, width, height) }),
    }
}

/// An enemy after `dt` nanoseconds: moved at `ENEMY_SPEED` along its
/// direction.
pub open spec fn moved_enemy(e: EnemyModel, dt: int) -> EnemyModel {
    EnemyModel {
        position: advanced(e.position, e.direction, ENEMY_SPEED as int, dt),
        direction: e.direction,
    }
}

/// Whether an enemy is past an edge of the window on the x axis.
pub open spec fn bounces_x(e: EnemyModel, width: int) -> bool {
    outside(e.position.x as int, ENEMY_SIZE / 2, width - ENEMY_SIZE / 2)
}

/// Whether an enemy is past an edge of the window on the y axis.
pub open spec fn bounces_y(e: EnemyModel, height: int) -> bool {
    outside(e.position.y as int, ENEMY_SIZE / 2, height - ENEMY_SIZE / 2)
}

/// Whether an enemy is past an edge of the window on either axis.
pub open spec fn bounces(e: EnemyModel, width: int, height: int) -> bool {
    bounces_x(e, width) || bounces_y(e, height)
}

/// An enemy brought back into the window: its position clamped, and the
/// component of its direction reversed on each axis on which it was out.
pub open spec fn bounced(e: EnemyModel, width: int, height: int) -> EnemyModel {
    EnemyModel {
        position: confined(e.position, ENEMY_SIZE / 2, width, height),
        direction: (
            if bounces_x(e, width) {
                -e.direction.0
            } else {
                e.direction.0
            },
            if bounces_y(e, height) {
                -e.direction.1
            } else {
                e.direction.1
            },
        ),
    }
}

/// The test that picks the enemies that bounce in a window.
pub open spec fn bouncing(width: int, height: int) -> spec_fn(EnemyModel) -> bool {
    |e: EnemyModel| bounces(e, width, height)
}

/// The number of enemies that bounce in a window.
pub open spec fn bounce_count(enemies: Seq<EnemyModel>, width: int, height: int) -> nat {
    enemies.filter(bouncing(width, height)).len()
}

/// Moves the player, if there is one, by the keys held for `dt`
/// nanoseconds.
pub fn player_movement(player: &mut Option<Player>, keys: Keys, dt: u64)
    ensures
        *final(player) == moved_player(*old(player), keys, dt as int),
{
    if let Some(p) = player {
        let mut sx: i32 = 0;
        let mut sy: i32 = 0;
        if keys.up {
            sy = sy + 1;
        }
        if keys.down {
            sy = sy - 1;
        }
        if keys.left {
            sx = sx - 1;
        }
        if keys.right {
            sx = sx + 1;
        }
        if let Some(d) = Direction::from_vector(sx, sy) {
            p.position = d.advance(p.position, PLAYER_SPEED, dt);
        }
    }
}

/// Clamps the player, if there is one, into the window.
pub fn confine_player_movement(player: &mut Option<Player>, width: i64, height: i64)
    requires
        0 < width,
        0 < height,
    ensures
        *final(player) == confined_player(*old(player), width as int, height as int),
{
    if let Some(p) = player {
        p.position = confine_point(p.position, PLAYER_SIZE / 2, width, height);
    }
}

/// Moves every enemy along its direction for `dt` nanoseconds.
pub fn enemy_movement(enemies: &mut Vec<Enemy>, dt: u64)
    ensures
        final(enemies).len() == old(enemies).len(),
        forall|i: int|
            0 <= i < old(enemies).len() ==> #[trigger] final(enemies)[i]@ == moved_enemy(
                old(enemies)[i]@,
                dt as int,
            ),
{
    let n = enemies.len();
    let mut i: usize = 0;
    while i < n
        invariant
            i <= n,
            n == old(enemies).len(),
            enemies.len() == n,
            forall|j: int|
                0 <= j < i ==> #[trigger] enemies[j]@ == moved_enemy(old(enemies)[j]@, dt as int),
            forall|j: int| i <= j < n ==> #[trigger] enemies[j] == old(enemies)[j],
        decreases n - i,
    {
        let e = enemies[i];
        enemies[i].position = e.direction.advance(e.position, ENEMY_SPEED, dt);
        i += 1;
    }
}

/// Brings every enemy back into the window, reversing its direction on each
/// axis on which it was out, and counts the enemies that bounced: each of
/// them asks for the bounce sound once, also when it was out on both axes.
pub fn confine_enemy_movement(enemies: &mut Vec<Enemy>, width: i64, height: i64) -> (sounds: usize)
    requires
        0 < width,
        0 < height,
    ensures
        final(enemies).len() == old(enemies).len(),
        forall|i: int|
            0 <= i < old(enemies).len() ==> #[trigger] final(enemies)[i]@ == bounced(
                old(enemies)[i]@,
                width as int,
                height as int,
            ),
        forall|i: int|
            0 <= i < old(enemies).len() ==> is_unit(
                (#[trigger] final(enemies)[i])@.direction.0,
                final(enemies)[i]@.direction.1,
            ),
        sounds == bounce_count(models(old(enemies)@), width as int, height as int),
{
    let half: i64 = ENEMY_SIZE / 2;
    let x_min: i64 = half;
    let x_max: i64 = width - half;
    let y_min: i64 = half;
    let y_max: i64 = height - half;
    let ghost test = bouncing(width as int, height as int);
    let n = enemies.len();
    let mut sounds: usize = 0;
    let mut i: usize = 0;
    let ghost before = models(old(enemies)@);
    assert(before.take(0).filter(test).len() == 0) by {
        before.take(0).lemma_filter_len(test);
    }
    while i < n
        invariant
            i <= n,
            n == old(enemies).len(),
            enemies.len() == n,
            half == ENEMY_SIZE / 2,
            x_min == half,
            y_min == half,
            x_max == width - half,
            y_max == height - half,
            test == bouncing(width as int, height as int),
            forall|j: int|
                0 <= j < i ==> #[trigger] enemies[j]@ == bounced(
                    old(enemies)[j]@,
                    width as int,
                    height as int,
                ),
            forall|j: int|
                0 <= j < i ==> is_unit(
                    (#[trigger] enemies[j])@.direction.0,
                    enemies[j]@.direction.1,
                ),
            forall|j: int| i <= j < n ==> #[trigger] enemies[j] == old(enemies)[j],
            before == models(old(enemies)@),
            sounds == before.take(i as int).filter(test).len(),
            sounds <= i,
        decreases n - i,
    {
        let enemy = enemies[i];
        let mut rebound = false;
        if enemy.position.x < x_min || enemy.position.x > x_max {
            enemies[i].direction.flip_x();
            rebound = true;
        }
        if enemy.position.y < y_min || enemy.position.y > y_max {
            enemies[i].direction.flip_y();
            rebound = true;
        }
        enemies[i].position = Point {
            x: clamp_coordinate(enemy.position.x, x_min, x_max),
            y: clamp_coordinate(enemy.position.y, y_min, y_max),
        };
        proof {
            use_type_invariant(&enemy.direction);
            let seen = before.take(i as int);
            seen.lemma_filter_push(enemy@, test);
            assert(before.take(i + 1) == seen.push(enemy@));
            assert(test(enemy@) == rebound);
        }
        if rebound {
            sounds = sounds + 1;
        }
        i += 1;
    }
    assert(before.take(n as int) == before);
    sounds
}

} // verus!
