//! The entity store and the tick that advances it.

use vstd::prelude::*;
use crate::contact::{enemy_hit, hit_by_any, player_collect_star, stars_left, stars_taken, update_score};
use crate::direction::is_unit;
use crate::entities::{lemma_models_push, models, raised, Enemy, EnemyModel, Player, Score, Star};
use crate::movement::{
    bounce_count,
    bounced,
    confine_enemy_movement,
    confine_player_movement,
    confined_player,
    enemy_movement,
    moved_enemy,
    moved_player,
    player_movement,
    Keys,
};
use crate::rules::{ENEMY_SPAWN_TIME, STAR_SPAWN_TIME};
use crate::sound::{sounds_for, sounds_of, Sound};
use crate::spawn::{
    place_enemy,
    place_star,
    placing_enemy,
    pointed,
    spawn_enemy_over_timer,
    spawn_point,
    spawned_enemy,
    tick_spawn_star,
    with_star,
};
use crate::timer::{
    has_fired,
    tick_enemy_timer,
    tick_start,
    ticked,
    EnemySpawnTimer,
    StarSpawnTimer,
    TimerModel,
};

verus! {

/// The numbers that one tick may draw at random: two for the place of a new
/// star, two for the place of a new enemy and two for its direction.
#[derive(Clone, Copy, Debug, PartialEq, Eq, Structural)]
pub struct Draws {
    pub star_x: u32,
    pub star_y: u32,
    pub enemy_x: u32,
    pub enemy_y: u32,
    pub enemy_dx: u32,
    pub enemy_dy: u32,
}

/// The entity store: the player if it is alive, the enemies, the stars, the
/// score and the two spawn timers.
#[derive(Debug)]
pub struct World {
    pub player: Option<Player>,
    pub enemies: Vec<Enemy>,
    pub stars: Vec<Star>,
    pub score: Score,
    pub star_timer: StarSpawnTimer,
    pub enemy_timer: EnemySpawnTimer,
}

/// What the rules read of the store.
pub struct WorldModel {
    pub player: Option<Player>,
    pub enemies: Seq<EnemyModel>,
    pub stars: Seq<Star>,
    pub score: nat,
    pub star_timer: TimerModel,
    pub enemy_timer: TimerModel,
}

impl View for World {
    type V = WorldModel;

    open spec fn view(&self) -> WorldModel {
        WorldModel {
            player: self.player,
            enemies: models(self.enemies@),
            stars: self.stars@,
            score: self.score@,
            star_timer: self.star_timer@,
            enemy_timer: self.enemy_timer@,
        }
    }
}

/// What one tick asks of the world around it: sounds to play, sprites to
/// remove or to add, and the score to show.
#[derive(Debug, PartialEq, Eq)]
pub struct StepReport {
    /// Enemies that bounced: one bounce sound each.
    pub bounces: usize,
    /// Whether the player was hit and removed: one explosion sound.
    pub player_hit: bool,
    /// The indices that the collected stars had before the tick, in rising
    /// order: one collect sound each.
    pub collected: Vec<usize>,
    /// The new score, where it changed.
    pub score_changed: Option<u32>,
    /// Whether a star was added at the end of the list.
    pub star_spawned: bool,
    /// Whether an enemy was added at the end of the list.
    pub enemy_spawned: bool,
}

/// What the rules say of a report.
pub struct ReportModel {
    pub bounces: nat,
    pub player_hit: bool,
    pub collected: Seq<usize>,
    pub score_changed: Option<nat>,
    pub star_spawned: bool,
    pub enemy_spawned: bool,
}

impl View for StepReport {
    type V = ReportModel;

    open spec fn view(&self) -> ReportModel {
        ReportModel {
            bounces: self.bounces as nat,
            player_hit: self.player_hit,
            collected: self.collected@,
            score_changed: match self.score_changed {
                Some(v) => Some(v as nat),
                None => None,
            },
            star_spawned: self.star_spawned,
            enemy_spawned: self.enemy_spawned,
        }
    }
}

impl StepReport {
    /// The sounds that the tick asks for, in the order of its rules.
    pub fn sounds(&self) -> (sounds: Vec<Sound>)
        ensures
            sounds@ == sounds_of(self@.bounces, self@.player_hit, self@.collected.len()),
    {
        sounds_for(self.bounces, self.player_hit, self.collected.len())
    }
}

/// The enemies after they have moved for `dt` nanoseconds.
pub open spec fn roamed(enemies: Seq<EnemyModel>, dt: nat) -> Seq<EnemyModel> {
    enemies.map_values(|e: EnemyModel| moved_enemy(e, dt as int))
}

/// The enemies after they have moved and been brought back into the window.
pub open spec fn settled(enemies: Seq<EnemyModel>, dt: nat, width: int, height: int) -> Seq<
    EnemyModel,
> {
    enemies.map_values(|e: EnemyModel| bounced(moved_enemy(e, dt as int), width, height))
}

/// The player after it has moved and been clamped into the window.
pub open spec fn walked(player: Option<Player>, keys: Keys, dt: nat, width: int, height: int) -> Option<
    Player,
> {
    confined_player(moved_player(player, keys, dt as int), width, height)
}

/// The player after the enemies have had their chance to hit it.
pub open spec fn survivor(w: WorldModel, dt: nat, keys: Keys, width: int, height: int) -> Option<
    Player,
> {
    let player = walked(w.player, keys, dt, width, height);
    if hit_by_any(player, settled(w.enemies, dt, width, height)) {
        None
    } else {
        player
    }
}

/// The store after every rule of a tick but the spawning: motion and
/// confinement of player and enemies, the hit test, the collecting of stars
/// and the ticking of both timers, in this order.
pub open spec fn before_spawns(w: WorldModel, dt: nat, keys: Keys, width: int, height: int) -> WorldModel {
    let player = survivor(w, dt, keys, width, height);
    WorldModel {
        player,
        enemies: settled(w.enemies, dt, width, height),
        stars: stars_left(player, w.stars),
        score: raised(w.score, stars_taken(player, w.stars).len()),
        star_timer: ticked(w.star_timer, dt),
        enemy_timer: ticked(w.enemy_timer, dt),
    }
}

/// The store after a whole tick: a star is added where the star timer
/// fired, and an enemy where the enemy timer fired and the draws give it a
/// direction.
pub open spec fn stepped(
    w: WorldModel,
    dt: nat,
    keys: Keys,
    width: int,
    height: int,
    draws: Draws,
) -> WorldModel {
    let b = before_spawns(w, dt, keys, width, height);
    WorldModel {
        player: b.player,
        enemies: if has_fired(b.enemy_timer) && pointed(draws.enemy_dx, draws.enemy_dy) {
            b.enemies.push(
                spawned_enemy(
                    draws.enemy_x,
                    draws.enemy_y,
                    draws.enemy_dx,
                    draws.enemy_dy,
                    width,
                    height,
                ),
            )
        } else {
            b.enemies
        },
        stars: if has_fired(b.star_timer) {
            b.stars.push(Star { position: spawn_point(draws.star_x, draws.star_y, width, height) })
        } else {
            b.stars
        },
        score: b.score,
        star_timer: b.star_timer,
        enemy_timer: b.enemy_timer,
    }
}

/// What a whole tick reports.
pub open spec fn report_of(
    w: WorldModel,
    dt: nat,
    keys: Keys,
    width: int,
    height: int,
    draws: Draws,
) -> ReportModel {
    let b = before_spawns(w, dt, keys, width, height);
    ReportModel {
        bounces: bounce_count(roamed(w.enemies, dt), width, height),
        player_hit: hit_by_any(
            walked(w.player, keys, dt, width, height),
            settled(w.enemies, dt, width, height),
        ),
        collected: stars_taken(b.player, w.stars),
        score_changed: if b.score != w.score {
            Some(b.score)
        } else {
            None
        },
        star_spawned: has_fired(b.star_timer),
        enemy_spawned: has_fired(b.enemy_timer) && pointed(draws.enemy_dx, draws.enemy_dy),
    }
}

/// Whether every enemy of a list heads in a direction of length one.
pub open spec fn all_unit(enemies: Seq<EnemyModel>) -> bool {
    forall|i: int|
        0 <= i < enemies.len() ==> is_unit(
            (#[trigger] enemies[i]).direction.0,
            enemies[i].direction.1,
        )
}

impl World {
    /// An empty store: no player, no enemies, no stars, a score of zero and
    /// both timers at their start.
    pub fn new() -> (w: World)
        ensures
            w@ == (WorldModel {
                player: None,
                enemies: Seq::empty(),
                stars: Seq::empty(),
                score: 0,
                star_timer: TimerModel { period: STAR_SPAWN_TIME as nat, elapsed: 0, fired: 0 },
                enemy_timer: TimerModel { period: ENEMY_SPAWN_TIME as nat, elapsed: 0, fired: 0 },
            }),
    {
        let w = World {
            player: None,
            enemies: Vec::new(),
            stars: Vec::new(),
            score: Score::default(),
            star_timer: StarSpawnTimer::default(),
            enemy_timer: EnemySpawnTimer::default(),
        };
        assert(models(w.enemies@) == Seq::<EnemyModel>::empty());
        w
    }
}

/// Runs every rule of a tick but the spawning.
fn advance(world: &mut World, dt: u64, keys: Keys, width: i64, height: i64) -> (report: StepReport)
    requires
        0 < width,
        0 < height,
    ensures
        final(world)@ == before_spawns(old(world)@, dt as nat, keys, width as int, height as int),
        report@.bounces == bounce_count(roamed(old(world)@.enemies, dt as nat), width as int, height as int),
        report@.player_hit == hit_by_any(
            walked(old(world)@.player, keys, dt as nat, width as int, height as int),
            settled(old(world)@.enemies, dt as nat, width as int, height as int),
        ),
        report@.collected == stars_taken(final(world)@.player, old(world)@.stars),
        report@.score_changed == if final(world)@.score != old(world)@.score {
            Some(final(world)@.score)
        } else {
            None
        },
        !report.star_spawned,
        !report.enemy_spawned,
        all_unit(final(world)@.enemies),
        final(world)@.score >= old(world)@.score,
        final(world).star_timer.is_paced(),
        final(world).enemy_timer.is_paced(),
{
    let previous: u32 = world.score.value();
    player_movement(&mut world.player, keys, dt);
    confine_player_movement(&mut world.player, width, height);
    enemy_movement(&mut world.enemies, dt);
    let ghost moved = world.enemies@;
    assert(models(moved) == roamed(old(world)@.enemies, dt as nat));
    let bounces = confine_enemy_movement(&mut world.enemies, width, height);
    assert(models(world.enemies@) == settled(
        old(world)@.enemies,
        dt as nat,
        width as int,
        height as int,
    ));
    let player_hit = enemy_hit(&mut world.player, &world.enemies);
    let collected = player_collect_star(&world.player, &mut world.stars, &mut world.score);
    let score_changed = update_score(&world.score, previous);
    tick_start(&mut world.star_timer, dt);
    tick_enemy_timer(&mut world.enemy_timer, dt);
    StepReport {
        bounces,
        player_hit,
        collected,
        score_changed,
        star_spawned: false,
        enemy_spawned: false,
    }
}

/// Runs one tick of `dt` nanoseconds with the keys held and the window as
/// given, taking from `draws` what the spawning needs.
pub fn simulation_step_with(
    world: &mut World,
    dt: u64,
    keys: Keys,
    width: i64,
    height: i64,
    draws: Draws,
) -> (report: StepReport)
    requires
        0 < width,
        0 < height,
    ensures
        final(world)@ == stepped(old(world)@, dt as nat, keys, width as int, height as int, draws),
        report@ == report_of(old(world)@, dt as nat, keys, width as int, height as int, draws),
        all_unit(final(world)@.enemies),
        final(world)@.score >= old(world)@.score,
{
    let mut report = advance(world, dt, keys, width, height);
    if world.star_timer.finished() {
        place_star(&mut world.stars, draws.star_x, draws.star_y, width, height);
        report.star_spawned = true;
    }
    if world.enemy_timer.finished() {
        let ghost before = world.enemies@;
        let spawned = place_enemy(
            &mut world.enemies,
            draws.enemy_x,
            draws.enemy_y,
            draws.enemy_dx,
            draws.enemy_dy,
            width,
            height,
        );
        report.enemy_spawned = spawned;
        proof {
            if spawned {
                lemma_models_push(before, world.enemies@);
            }
        }
    }
    report
}

/// Runs one tick of `dt` nanoseconds with the keys held and the window as
/// given, drawing at random what the spawning needs.
pub fn simulation_step(world: &mut World, dt: u64, keys: Keys, width: i64, height: i64) -> (report:
    StepReport)
    requires
        0 < width,
        0 < height,
    ensures
        exists|draws: Draws|
            final(world)@ == #[trigger] stepped(
                old(world)@,
                dt as nat,
                keys,
                width as int,
                height as int,
                draws,
            ) && report@ == report_of(old(world)@, dt as nat, keys, width as int, height as int, draws),
        all_unit(final(world)@.enemies),
        final(world)@.score >= old(world)@.score,
{
    let mut report = advance(world, dt, keys, width, height);
    let ghost stars_before = world.stars@;
    let ghost enemies_before = world.enemies@;
    let star_spawned = tick_spawn_star(&world.star_timer, &mut world.stars, width, height);
    let enemy_spawned = spawn_enemy_over_timer(
        &world.enemy_timer,
        &mut world.enemies,
        width,
        height,
    );
    report.star_spawned = star_spawned;
    report.enemy_spawned = enemy_spawned;
    proof {
        let (star_x, star_y) = if star_spawned {
            choose|x: u32, y: u32|
                with_star(
                    stars_before,
                    world.stars@,
                    Star { position: #[trigger] spawn_point(x, y, width as int, height as int) },
                )
        } else {
            (0u32, 0u32)
        };
        let (enemy_x, enemy_y, enemy_dx, enemy_dy) = if has_fired(world.enemy_timer@) {
            choose|x: u32, y: u32, dx: u32, dy: u32|
                #[trigger] placing_enemy(
                    enemies_before,
                    world.enemies@,
                    enemy_spawned,
                    x,
                    y,
                    dx,
                    dy,
                    width as int,
                    height as int,
                )
        } else {
            (0u32, 0u32, 0u32, 0u32)
        };
        let draws = Draws { star_x, star_y, enemy_x, enemy_y, enemy_dx, enemy_dy };
        if enemy_spawned {
            lemma_models_push(enemies_before, world.enemies@);
        }
        assert(world@ == stepped(old(world)@, dt as nat, keys, width as int, height as int, draws));
    }
    report
}

} // verus!
