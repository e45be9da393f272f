//! Where new entities appear: the player in the middle of the window, stars
//! and enemies at places drawn at random.

use vstd::prelude::*;
use crate::direction::{heading, is_unit, Direction};
use crate::entities::{lemma_models_push, models, Enemy, EnemyModel, Player, Star};
use crate::geometry::Point;
use crate::rules::{NUMBER_OF_ENEMIES, NUMBER_OF_STARS};
use crate::timer::{has_fired, EnemySpawnTimer, StarSpawnTimer};

verus! {

/// The number of equal steps into which a draw divides an extent.
pub const DRAW_STEPS: i64 = 0x100_0000;

/// The step that a draw selects: its upper 24 bits, so that the step over
/// `DRAW_STEPS` is a fraction in `[0, 1)`.
pub open spec fn draw_fraction(draw: u32) -> int {
    draw as int / 256
}

/// The coordinate that a draw selects within `[0, extent)`: the fraction of
/// the extent, rounded down.
pub open spec fn placed(draw: u32, extent: int) -> int {
    (draw_fraction(draw) * extent) / (DRAW_STEPS as int)
}

/// The point that two draws select in a window.
pub open spec fn spawn_point(draw_x: u32, draw_y: u32, width: int, height: int) -> Point {
    Point { x: placed(draw_x, width) as i64, y: placed(draw_y, height) as i64 }
}

/// The middle of a window.
pub open spec fn centre(width: int, height: int) -> Point {
    Point { x: (width / 2) as i64, y: (height / 2) as i64 }
}

/// Whether two draws give a vector that points somewhere: the zero vector
/// has no direction.
pub open spec fn pointed(draw_dx: u32, draw_dy: u32) -> bool {
    draw_fraction(draw_dx) != 0 || draw_fraction(draw_dy) != 0
}

/// The enemy that four draws select: two for its place and two for the
/// vector along which it heads, both components of which are fractions in
/// `[0, 1)`.
pub open spec fn spawned_enemy(
    draw_x: u32,
    draw_y: u32,
    draw_dx: u32,
    draw_dy: u32,
    width: int,
    height: int,
) -> EnemyModel {
    EnemyModel {
        position: spawn_point(draw_x, draw_y, width, height),
        direction: heading(draw_fraction(draw_dx), draw_fraction(draw_dy)),
    }
}

/// Whether some pair of draws selects the place of this star.
pub open spec fn is_spawned_star(s: Star, width: int, height: int) -> bool {
    exists|draw_x: u32, draw_y: u32| s.position == spawn_point(draw_x, draw_y, width, height)
}

/// Whether some four draws select this enemy.
pub open spec fn is_spawned_enemy(e: EnemyModel, width: int, height: int) -> bool {
    exists|draw_x: u32, draw_y: u32, draw_dx: u32, draw_dy: u32|
        pointed(draw_dx, draw_dy) && e == #[trigger] spawned_enemy(
            draw_x,
            draw_y,
            draw_dx,
            draw_dy,
            width,
            height,
        )
}

/// Whether `after` is `before` with one more star at its end.
pub open spec fn with_star(before: Seq<Star>, after: Seq<Star>, s: Star) -> bool {
    after == before.push(s)
}

/// Whether `after` is `before` with one more enemy at its end, which the
/// rules read as `e`.
pub open spec fn with_enemy(before: Seq<Enemy>, after: Seq<Enemy>, e: EnemyModel) -> bool {
    &&& after.len() == before.len() + 1
    &&& after.drop_last() == before
    &&& after.last()@ == e
}

/// Whether adding the enemy that four draws select leads from `before` to
/// `after`: with draws that point somewhere the enemy is added, and
/// `spawned` says so; with others nothing changes.
pub open spec fn placing_enemy(
    before: Seq<Enemy>,
    after: Seq<Enemy>,
    spawned: bool,
    draw_x: u32,
    draw_y: u32,
    draw_dx: u32,
    draw_dy: u32,
    width: int,
    height: int,
) -> bool {
    &&& spawned == pointed(draw_dx, draw_dy)
    &&& !spawned ==> after == before
    &&& spawned ==> with_enemy(
        before,
        after,
        spawned_enemy(draw_x, draw_y, draw_dx, draw_dy, width, height),
    )
}

/// The four numbers drawn for one enemy: two for its place and two for its
/// direction.
pub struct EnemyDraw {
    pub x: u32,
    pub y: u32,
    pub dx: u32,
    pub dy: u32,
}

/// The enemies after one round of draws for each entry of `draws`, in
/// their order: a round whose draws point somewhere adds the enemy that
/// they select at the end of the list, and any other round adds none.
pub open spec fn with_drawn_enemies(
    before: Seq<EnemyModel>,
    draws: Seq<EnemyDraw>,
    width: int,
    height: int,
) -> Seq<EnemyModel>
    decreases draws.len(),
{
    if draws.len() == 0 {
        before
    } else {
        let earlier = with_drawn_enemies(before, draws.drop_last(), width, height);
        let d = draws.last();
        if pointed(d.dx, d.dy) {
            earlier.push(spawned_enemy(d.x, d.y, d.dx, d.dy, width, height))
        } else {
            earlier
        }
    }
}

/// One number from rand's thread-local generator, by `rand::random`. It is
/// a matter of chance, so nothing is said of it.
#[verifier::external_body]
fn random_draw() -> u32 {
    rand::random::<u32>()
}

/// The step that a draw selects.
fn fraction(draw: u32) -> (f: u32)
    ensures
        f == draw_fraction(draw),
        f < DRAW_STEPS,
{
    assert(draw >> 8 == draw / 256 && (draw >> 8) < 0x100_0000) by (bit_vector);
    draw >> 8
}

/// Computes the coordinate that a draw selects within `[0, extent)`.
pub fn place(draw: u32, extent: i64) -> (r: i64)
    requires
        0 < extent,
    ensures
        r == placed(draw, extent as int),
        0 <= r < extent,
{
    let f: i128 = fraction(draw) as i128;
    assert(0 <= f * extent < 0x100_0000 * extent) by (nonlinear_arith)
        requires
            0 <= f < 0x100_0000,
            0 < extent,
    ;
    let r: i128 = (f * extent as i128) / (DRAW_STEPS as i128);
    r as i64
}

/// Puts the player in the middle of the window.
pub fn spawn_player(player: &mut Option<Player>, width: i64, height: i64)
    requires
        0 < width,
        0 < height,
    ensures
        *final(player) == Some(Player { position: centre(width as int, height as int) }),
{
    *player = Some(Player { position: Point { x: width / 2, y: height / 2 } });
}

/// The place of the camera: the middle of the window.
pub fn spawn_camera(width: i64, height: i64) -> (at: Point)
    requires
        0 < width,
        0 < height,
    ensures
        at == centre(width as int, height as int),
{
    Point { x: width / 2, y: height / 2 }
}

/// Adds a star at the place that two draws select.
pub fn place_star(stars: &mut Vec<Star>, draw_x: u32, draw_y: u32, width: i64, height: i64)
    requires
        0 < width,
        0 < height,
    ensures
        with_star(
            old(stars)@,
            final(stars)@,
            Star { position: spawn_point(draw_x, draw_y, width as int, height as int) },
        ),
{
    stars.push(Star { position: Point { x: place(draw_x, width), y: place(draw_y, height) } });
}

/// Adds the enemy that four draws select. Where both draws for the
/// direction select step zero there is no direction to head in, and no
/// enemy is added. Returns whether one was.
pub fn place_enemy(
    enemies: &mut Vec<Enemy>,
    draw_x: u32,
    draw_y: u32,
    draw_dx: u32,
    draw_dy: u32,
    width: i64,
    height: i64,
) -> (spawned: bool)
    requires
        0 < width,
        0 < height,
    ensures
        placing_enemy(
            old(enemies)@,
            final(enemies)@,
            spawned,
            draw_x,
            draw_y,
            draw_dx,
            draw_dy,
            width as int,
            height as int,
        ),
        spawned ==> is_unit(final(enemies)@.last()@.direction.0, final(enemies)@.last()@.direction.1),
{
    let fx: u32 = fraction(draw_dx);
    let fy: u32 = fraction(draw_dy);
    match Direction::from_vector(fx as i32, fy as i32) {
        None => false,
        Some(direction) => {
            let position = Point { x: place(draw_x, width), y: place(draw_y, height) };
            enemies.push(Enemy { position, direction });
            assert(final(enemies)@.drop_last() == old(enemies)@);
            true
        },
    }
}

/// Adds the stars of the start, each at a place drawn at random.
pub fn spawn_star(stars: &mut Vec<Star>, width: i64, height: i64)
    requires
        0 < width,
        0 < height,
    ensures
        final(stars)@.len() == old(stars)@.len() + NUMBER_OF_STARS,
        final(stars)@.take(old(stars)@.len() as int) == old(stars)@,
        forall|i: int|
            old(stars)@.len() <= i < final(stars)@.len() ==> is_spawned_star(
                #[trigger] final(stars)@[i],
                width as int,
                height as int,
            ),
{
    let ghost before = stars@;
    let mut k: usize = 0;
    while k < NUMBER_OF_STARS
        invariant
            k <= NUMBER_OF_STARS,
            0 < width,
            0 < height,
            stars@.len() == before.len() + k,
            stars@.take(before.len() as int) == before,
            forall|i: int|
                before.len() <= i < stars@.len() ==> is_spawned_star(
                    #[trigger] stars@[i],
                    width as int,
                    height as int,
                ),
        decreases NUMBER_OF_STARS - k,
    {
        let draw_x = random_draw();
        let draw_y = random_draw();
        place_star(stars, draw_x, draw_y, width, height);
        k += 1;
    }
}

/// Adds the enemies of the start in `NUMBER_OF_ENEMIES` rounds of four
/// draws, each round placing the enemy that its draws select. A round whose
/// draws give no direction adds none.
pub fn spawn_enemies(enemies: &mut Vec<Enemy>, width: i64, height: i64)
    requires
        0 < width,
        0 < height,
    ensures
        exists|draws: Seq<EnemyDraw>|
            draws.len() == NUMBER_OF_ENEMIES && models(final(enemies)@) == #[trigger] with_drawn_enemies(
                models(old(enemies)@),
                draws,
                width as int,
                height as int,
            ),
        old(enemies)@.len() <= final(enemies)@.len() <= old(enemies)@.len() + NUMBER_OF_ENEMIES,
        final(enemies)@.take(old(enemies)@.len() as int) == old(enemies)@,
        forall|i: int|
            old(enemies)@.len() <= i < final(enemies)@.len() ==> is_spawned_enemy(
                (#[trigger] final(enemies)@[i])@,
                width as int,
                height as int,
            ),
{
    let ghost before = enemies@;
    let ghost mut drawn: Seq<EnemyDraw> = Seq::empty();
    let mut k: usize = 0;
    while k < NUMBER_OF_ENEMIES
        invariant
            k <= NUMBER_OF_ENEMIES,
            0 < width,
            0 < height,
            drawn.len() == k,
            models(enemies@) == with_drawn_enemies(
                models(before),
                drawn,
                width as int,
                height as int,
            ),
            before.len() <= enemies@.len() <= before.len() + k,
            enemies@.take(before.len() as int) == before,
            forall|i: int|
                before.len() <= i < enemies@.len() ==> is_spawned_enemy(
                    (#[trigger] enemies@[i])@,
                    width as int,
                    height as int,
                ),
        decreases NUMBER_OF_ENEMIES - k,
    {
        let draw_x = random_draw();
        let draw_y = random_draw();
        let draw_dx = random_draw();
        let draw_dy = random_draw();
        let ghost so_far = enemies@;
        let spawned = place_enemy(enemies, draw_x, draw_y, draw_dx, draw_dy, width, height);
        proof {
            let round = EnemyDraw { x: draw_x, y: draw_y, dx: draw_dx, dy: draw_dy };
            assert(drawn.push(round).drop_last() == drawn);
            drawn = drawn.push(round);
            if spawned {
                lemma_models_push(so_far, enemies@);
                let added = spawned_enemy(
                    draw_x,
                    draw_y,
                    draw_dx,
                    draw_dy,
                    width as int,
                    height as int,
                );
                assert(is_spawned_enemy(added, width as int, height as int));
                assert forall|i: int| before.len() <= i < enemies@.len() implies is_spawned_enemy(
                    (#[trigger] enemies@[i])@,
                    width as int,
                    height as int,
                ) by {
                    if i < so_far.len() {
                        assert(enemies@[i] == enemies@.drop_last()[i]);
                    }
                }
                assert(enemies@.take(before.len() as int) == so_far.take(before.len() as int));
            }
        }
        k += 1;
    }
}

/// Adds one star at a place drawn at random if the star timer fired during
/// its last tick. Returns whether it did.
pub fn tick_spawn_star(timer: &StarSpawnTimer, stars: &mut Vec<Star>, width: i64, height: i64) -> (spawned:
    bool)
    requires
        0 < width,
        0 < height,
    ensures
        spawned == has_fired(timer@),
        !spawned ==> final(stars)@ == old(stars)@,
        spawned ==> exists|draw_x: u32, draw_y: u32|
            with_star(
                old(stars)@,
                final(stars)@,
                Star { position: #[trigger] spawn_point(draw_x, draw_y, width as int, height as int) },
            ),
{
    if timer.finished() {
        let draw_x = random_draw();
        let draw_y = random_draw();
        place_star(stars, draw_x, draw_y, width, height);
        true
    } else {
        false
    }
}

/// Adds one enemy at a place and with a direction drawn at random if the
/// enemy timer fired during its last tick. Returns whether one was added:
/// a draw without a direction adds none.
pub fn spawn_enemy_over_timer(
    timer: &EnemySpawnTimer,
    enemies: &mut Vec<Enemy>,
    width: i64,
    height: i64,
) -> (spawned: bool)
    requires
        0 < width,
        0 < height,
    ensures
        !has_fired(timer@) ==> !spawned && final(enemies)@ == old(enemies)@,
        has_fired(timer@) ==> exists|draw_x: u32, draw_y: u32, draw_dx: u32, draw_dy: u32|
            #[trigger] placing_enemy(
                old(enemies)@,
                final(enemies)@,
                spawned,
                draw_x,
                draw_y,
                draw_dx,
                draw_dy,
                width as int,
                height as int,
            ),
        spawned ==> is_unit(final(enemies)@.last()@.direction.0, final(enemies)@.last()@.direction.1),
{
    if timer.finished() {
        let draw_x = random_draw();
        let draw_y = random_draw();
        let draw_dx = random_draw();
        let draw_dy = random_draw();
        place_enemy(enemies, draw_x, draw_y, draw_dx, draw_dy, width, height)
    } else {
        false
    }
}

} // verus!
