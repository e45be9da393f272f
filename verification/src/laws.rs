//! What holds of the rules for every input, proved from their definitions.

use vstd::prelude::*;
use vstd::arithmetic::div_mod::{lemma_fundamental_div_mod, lemma_fundamental_div_mod_converse};
use crate::arith::{lemma_square_monotone, lemma_square_strictly_monotone, saturated};
use crate::contact::{index_in_reach, indices, out_of_reach, stars_left, stars_taken};
use crate::direction::{
    is_unit,
    lemma_heading_along_axis,
    lemma_heading_along_diagonal,
    lemma_heading_is_unit,
    magnitude,
    travel,
    DIAGONAL,
};
use crate::entities::{raised, EnemyModel, Player, Star};
use crate::geometry::{confined, distance_squared, inside_margins, touches, Point};
use crate::movement::{
    bounce_count,
    bounced,
    bounces,
    bounces_y,
    bouncing,
    confined_player,
    key_sum,
    moved_player,
    Keys,
};
use crate::rules::{ENEMY_SIZE, PLAYER_SIZE, PLAYER_SPEED, STAR_REACH, UNIT};
use crate::spawn::{draw_fraction, pointed};
use crate::timer::{ticked, TimerModel};
use crate::world::{all_unit, before_spawns, stepped, Draws, WorldModel};

verus! {

/// Along a component of full length the way made is speed times time, with
/// nothing lost to rounding; along a component of zero it is nothing.
pub proof fn law_travel_at_full_length(speed: nat, dt: nat)
    ensures
        travel(UNIT as int, speed as int, dt as int) == speed * dt,
        travel(-UNIT as int, speed as int, dt as int) == -(speed * dt),
        travel(0, speed as int, dt as int) == 0,
{
    let s: int = speed as int * dt as int;
    assert((1_000_000_000 * s) / 1_000_000_000 == s) by (nonlinear_arith);
    assert(0 * s == 0) by (nonlinear_arith);
    assert((-(-1_000_000_000int)) * s == 1_000_000_000 * s);
}

/// With no key held, or with only opposite keys held, the player stays
/// where it is.
pub proof fn law_player_rests(player: Option<Player>, keys: Keys, dt: nat)
    requires
        key_sum(keys) == (0int, 0int),
    ensures
        moved_player(player, keys, dt as int) == player,
{
}

/// With the keys of one axis adding up to one step, the player moves along
/// that axis by exactly `PLAYER_SPEED` times the time.
pub proof fn law_player_step_along_axis(p: Player, keys: Keys, dt: nat)
    requires
        (key_sum(keys).0 == 0) != (key_sum(keys).1 == 0),
    ensures
        moved_player(Some(p), keys, dt as int) == Some(
            Player {
                position: Point {
                    x: saturated(p.position.x + key_sum(keys).0 * (PLAYER_SPEED * dt)) as i64,
                    y: saturated(p.position.y + key_sum(keys).1 * (PLAYER_SPEED * dt)) as i64,
                },
            },
        ),
{
    let sum = key_sum(keys);
    lemma_heading_along_axis(sum.0, sum.1);
    law_travel_at_full_length(PLAYER_SPEED as nat, dt);
    let s: int = PLAYER_SPEED * dt;
    assert(1 * s == s && (-1) * s == -s && 0 * s == 0) by (nonlinear_arith);
}

/// With keys of both axes held, the player moves along the diagonal: by
/// the same amount on both axes, which is `PLAYER_SPEED` times the time
/// times `DIAGONAL` over `UNIT`, rounded toward zero.
pub proof fn law_player_step_along_diagonal(p: Player, keys: Keys, dt: nat)
    requires
        key_sum(keys).0 != 0,
        key_sum(keys).1 != 0,
    ensures
        moved_player(Some(p), keys, dt as int) == Some(
            Player {
                position: Point {
                    x: saturated(
                        p.position.x + key_sum(keys).0 * ((DIAGONAL * (PLAYER_SPEED * dt)) / (
                        UNIT as int)),
                    ) as i64,
                    y: saturated(
                        p.position.y + key_sum(keys).1 * ((DIAGONAL * (PLAYER_SPEED * dt)) / (
                        UNIT as int)),
                    ) as i64,
                },
            },
        ),
{
    let sum = key_sum(keys);
    lemma_heading_along_diagonal(sum.0, sum.1);
    let q: int = (DIAGONAL * (PLAYER_SPEED * dt)) / (UNIT as int);
    assert(1 * q == q && (-1) * q == -q) by (nonlinear_arith);
    assert((-(-(DIAGONAL as int))) == DIAGONAL as int);
}

/// The way made in one tick along a direction of length one is as long as
/// speed times time, up to the rounding of each axis toward zero: it is
/// never longer, and it falls short by less than one step on each axis and
/// by what the direction itself lacks of length one.
pub proof fn law_step_length(d: (int, int), speed: nat, dt: nat)
    requires
        is_unit(d.0, d.1),
    ensures
        ({
            let ox = magnitude(travel(d.0, speed as int, dt as int));
            let oy = magnitude(travel(d.1, speed as int, dt as int));
            let s = speed * dt;
            &&& ox * ox + oy * oy <= s * s
            &&& (d.0 * d.0 + d.1 * d.1) * (s * s) <= ((ox + 1) * (ox + 1) + (oy + 1) * (oy + 1)) * (
            UNIT * UNIT)
        }),
{
    let s: int = speed as int * dt as int;
    let ax = magnitude(d.0);
    let ay = magnitude(d.1);
    let ox = magnitude(travel(d.0, speed as int, dt as int));
    let oy = magnitude(travel(d.1, speed as int, dt as int));
    assert(0 <= s) by (nonlinear_arith)
        requires
            s == speed as int * dt as int,
    ;
    lemma_way_bounds(ax, s, ox);
    lemma_way_bounds(ay, s, oy);
    assert(ax * ax == d.0 * d.0) by (nonlinear_arith)
        requires
            ax == d.0 || ax == -d.0,
    ;
    assert(ay * ay == d.1 * d.1) by (nonlinear_arith)
        requires
            ay == d.1 || ay == -d.1,
    ;
    let u: int = UNIT * UNIT;
    let ss: int = s * s;
    assert(0 <= ss) by (nonlinear_arith)
        requires
            ss == s * s,
    ;
    assert(ox * ox + oy * oy <= ss) by (nonlinear_arith)
        requires
            (ox * ox) * u <= (ax * ax) * ss,
            (oy * oy) * u <= (ay * ay) * ss,
            ax * ax + ay * ay <= u,
            0 < u,
            0 <= ss,
    ;
    assert((ax * ax + ay * ay) * ss <= ((ox + 1) * (ox + 1) + (oy + 1) * (oy + 1)) * u)
        by (nonlinear_arith)
        requires
            (ax * ax) * ss <= ((ox + 1) * (ox + 1)) * u,
            (ay * ay) * ss <= ((oy + 1) * (oy + 1)) * u,
    ;
}

/// For a component of size `a` and a product `s` of speed and time, the way
/// `o` made lies between `a * s / UNIT` less one step and `a * s / UNIT`.
proof fn lemma_way_bounds(a: int, s: int, o: int)
    requires
        0 <= a,
        0 <= s,
        o == (a * s) / (UNIT as int),
    ensures
        0 <= o,
        (o * o) * (UNIT * UNIT) <= (a * a) * (s * s),
        (a * a) * (s * s) <= ((o + 1) * (o + 1)) * (UNIT * UNIT),
{
    let u: int = UNIT as int;
    let t: int = a * s;
    assert(0 <= t) by (nonlinear_arith)
        requires
            t == a * s,
            0 <= a,
            0 <= s,
    ;
    assert(0 <= o && o * u <= t < (o + 1) * u) by (nonlinear_arith)
        requires
            o == t / u,
            u == 1_000_000_000,
            0 <= t,
    ;
    lemma_square_monotone(o * u, t);
    lemma_square_monotone(t, (o + 1) * u);
    assert((o * u) * (o * u) == (o * o) * (u * u)) by (nonlinear_arith);
    assert(((o + 1) * u) * ((o + 1) * u) == ((o + 1) * (o + 1)) * (u * u)) by (nonlinear_arith);
    assert(t * t == (a * a) * (s * s)) by (nonlinear_arith)
        requires
            t == a * s,
    ;
}

/// Confining is idempotent: a point that has been clamped into the window
/// is left where it is by a second clamp.
pub proof fn law_confine_twice(p: Point, half: i64, width: i64, height: i64)
    requires
        0 <= half,
        0 < width,
        0 < height,
    ensures
        confined(confined(p, half as int, width as int, height as int), half as int, width as int, height as int)
            == confined(p, half as int, width as int, height as int),
{
}

/// Confining the player twice yields what confining it once yields.
pub proof fn law_confine_player_twice(player: Option<Player>, width: i64, height: i64)
    requires
        0 < width,
        0 < height,
    ensures
        confined_player(confined_player(player, width as int, height as int), width as int, height as int)
            == confined_player(player, width as int, height as int),
{
    if let Some(p) = player {
        law_confine_twice(p.position, (PLAYER_SIZE / 2) as i64, width, height);
    }
}

/// In a window that is at least as wide and as high as the disc, a confined
/// point keeps the disc inside the window.
pub proof fn law_confined_is_inside(p: Point, half: i64, width: i64, height: i64)
    requires
        0 <= half,
        2 * half <= width,
        2 * half <= height,
    ensures
        inside_margins(
            confined(p, half as int, width as int, height as int),
            half as int,
            width as int,
            height as int,
        ),
{
}

/// An enemy that is past the left edge has the x component of its direction
/// reversed once. The y component is reversed exactly if the enemy is past
/// an edge on the y axis too, and either way the enemy counts as one bounce.
pub proof fn law_bounce_at_left_edge(e: EnemyModel, width: i64, height: i64)
    requires
        0 < width,
        0 < height,
        e.position.x < ENEMY_SIZE / 2,
    ensures
        bounced(e, width as int, height as int).direction.0 == -e.direction.0,
        bounced(e, width as int, height as int).direction.1 == if bounces_y(e, height as int) {
            -e.direction.1
        } else {
            e.direction.1
        },
        ENEMY_SIZE <= width ==> bounced(e, width as int, height as int).position.x == ENEMY_SIZE / 2,
        bounce_count(seq![e], width as int, height as int) == 1,
{
    law_bounce_counts_once(e, width, height);
}

/// One enemy asks for the bounce sound once if it is past an edge on either
/// axis or on both, and not at all otherwise.
pub proof fn law_bounce_counts_once(e: EnemyModel, width: i64, height: i64)
    ensures
        bounce_count(seq![e], width as int, height as int) == if bounces(
            e,
            width as int,
            height as int,
        ) {
            1nat
        } else {
            0nat
        },
{
    let test = bouncing(width as int, height as int);
    let none = Seq::<EnemyModel>::empty();
    none.lemma_filter_len(test);
    none.lemma_filter_push(e, test);
    assert(seq![e] == none.push(e));
}

/// A bounce keeps the length of the direction.
pub proof fn law_bounce_keeps_length(e: EnemyModel, width: i64, height: i64)
    ensures
        ({
            let b = bounced(e, width as int, height as int);
            b.direction.0 * b.direction.0 + b.direction.1 * b.direction.1 == e.direction.0
                * e.direction.0 + e.direction.1 * e.direction.1
        }),
        is_unit(e.direction.0, e.direction.1) ==> is_unit(
            bounced(e, width as int, height as int).direction.0,
            bounced(e, width as int, height as int).direction.1,
        ),
{
    let x = e.direction.0;
    let y = e.direction.1;
    assert((-x) * (-x) == x * x) by (nonlinear_arith);
    assert((-y) * (-y) == y * y) by (nonlinear_arith);
}

/// Two centres that are `apart` from each other touch exactly if `apart` is
/// at most the reach: the boundary counts as a contact, one step more does
/// not.
pub proof fn law_contact_boundary(a: Point, b: Point, reach: int, apart: int)
    requires
        0 <= reach,
        0 <= apart,
        distance_squared(a, b) == apart * apart,
    ensures
        touches(a, b, reach) <==> apart <= reach,
{
    if apart <= reach {
        lemma_square_monotone(apart, reach);
    } else {
        lemma_square_strictly_monotone(reach, apart);
    }
}

/// Two centres on one vertical line touch exactly if they are at most the
/// reach apart.
pub proof fn law_contact_on_a_line(a: Point, b: Point, reach: int)
    requires
        0 <= reach,
        a.x == b.x,
        a.y <= b.y,
    ensures
        touches(a, b, reach) <==> b.y - a.y <= reach,
{
    let apart = b.y - a.y;
    assert(distance_squared(a, b) == apart * apart) by (nonlinear_arith)
        requires
            a.x == b.x,
            apart == b.y - a.y,
            distance_squared(a, b) == (a.x - b.x) * (a.x - b.x) + (a.y - b.y) * (a.y - b.y),
    ;
    law_contact_boundary(a, b, reach, apart);
}

/// Of the stars, those taken and those left make up all: the player takes
/// the star at an index exactly if it touches that star, and the score
/// rises by the number of stars taken.
pub proof fn law_stars_taken(player: Option<Player>, stars: Seq<Star>)
    requires
        stars.len() <= usize::MAX,
    ensures
        stars_taken(player, stars).len() + stars_left(player, stars).len() == stars.len(),
        forall|i: int|
            0 <= i < stars.len() ==> (#[trigger] stars_taken(player, stars).contains(i as usize) <==> (
            player matches Some(p) && touches(p.position, stars[i].position, STAR_REACH as int))),
{
    match player {
        None => {
            assert forall|i: int| 0 <= i < stars.len() implies !(#[trigger] stars_taken(
                player,
                stars,
            ).contains(i as usize)) by {}
        },
        Some(p) => {
            lemma_taken_and_left(p.position, stars, stars.len());
            assert(stars.take(stars.len() as int) == stars);
            let all = indices(stars.len());
            let test = index_in_reach(p.position, stars);
            assert forall|i: int| 0 <= i < stars.len() implies (#[trigger] all.filter(test).contains(
                i as usize,
            ) <==> touches(p.position, stars[i].position, STAR_REACH as int)) by {
                assert(all[i] == i as usize);
                if touches(p.position, stars[i].position, STAR_REACH as int) {
                    all.lemma_filter_contains(test, i);
                }
                if all.filter(test).contains(i as usize) {
                    let j = choose|j: int|
                        0 <= j < all.filter(test).len() && all.filter(test)[j] == i as usize;
                    all.lemma_filter_pred(test, j);
                }
            }
        },
    }
}

/// Among the first `k` stars, those taken and those left make up all.
proof fn lemma_taken_and_left(at: Point, stars: Seq<Star>, k: nat)
    requires
        k <= stars.len() <= usize::MAX,
    ensures
        indices(k).filter(index_in_reach(at, stars)).len() + stars.take(k as int).filter(
            out_of_reach(at),
        ).len() == k,
    decreases k,
{
    let test = index_in_reach(at, stars);
    let keep = out_of_reach(at);
    if k == 0 {
        indices(0).lemma_filter_len(test);
        stars.take(0).lemma_filter_len(keep);
    } else {
        let j = (k - 1) as nat;
        lemma_taken_and_left(at, stars, j);
        indices(j).lemma_filter_push(j as usize, test);
        stars.take(j as int).lemma_filter_push(stars[j as int], keep);
        assert(indices(k) == indices(j).push(j as usize));
        assert(stars.take(k as int) == stars.take(j as int).push(stars[j as int]));
    }
}

/// One tick with all that it takes from outside: the time, the keys held,
/// the size of the window and the numbers drawn.
pub struct Frame {
    pub dt: nat,
    pub keys: Keys,
    pub width: int,
    pub height: int,
    pub draws: Draws,
}

/// The store after the given ticks, one after the other.
pub open spec fn played(w: WorldModel, frames: Seq<Frame>) -> WorldModel
    decreases frames.len(),
{
    if frames.len() == 0 {
        w
    } else {
        let f = frames.last();
        stepped(played(w, frames.drop_last()), f.dt, f.keys, f.width, f.height, f.draws)
    }
}

/// One tick never lowers the score, and raises it by the number of stars
/// that the player takes.
pub proof fn law_score_after_step(w: WorldModel, f: Frame)
    requires
        w.score <= u32::MAX,
    ensures
        ({
            let after = stepped(w, f.dt, f.keys, f.width, f.height, f.draws);
            &&& w.score <= after.score <= u32::MAX
            &&& after.score == raised(w.score, stars_taken(after.player, w.stars).len())
            &&& w.score + stars_taken(after.player, w.stars).len() <= u32::MAX ==> after.score
                == w.score + stars_taken(after.player, w.stars).len()
        }),
{
}

/// Over any run of ticks the score never falls.
pub proof fn law_score_never_falls(w: WorldModel, frames: Seq<Frame>)
    requires
        w.score <= u32::MAX,
    ensures
        w.score <= played(w, frames).score <= u32::MAX,
    decreases frames.len(),
{
    if frames.len() > 0 {
        law_score_never_falls(w, frames.drop_last());
        law_score_after_step(played(w, frames.drop_last()), frames.last());
    }
}

/// A player that is gone stays gone: no tick brings it back.
pub proof fn law_player_never_returns(w: WorldModel, frames: Seq<Frame>)
    requires
        w.player is None,
    ensures
        played(w, frames).player is None,
    decreases frames.len(),
{
    if frames.len() > 0 {
        law_player_never_returns(w, frames.drop_last());
    }
}

/// Where every enemy heads in a direction of length one, so does every
/// enemy after a tick: a bounce keeps the length, and a new enemy is given
/// a direction of length one.
pub proof fn law_directions_stay_unit(w: WorldModel, f: Frame)
    requires
        all_unit(w.enemies),
        i64::MIN <= f.width <= i64::MAX,
        i64::MIN <= f.height <= i64::MAX,
    ensures
        all_unit(stepped(w, f.dt, f.keys, f.width, f.height, f.draws).enemies),
{
    let b = before_spawns(w, f.dt, f.keys, f.width, f.height);
    assert forall|i: int| 0 <= i < b.enemies.len() implies is_unit(
        (#[trigger] b.enemies[i]).direction.0,
        b.enemies[i].direction.1,
    ) by {
        let e = w.enemies[i];
        let x = e.direction.0;
        let y = e.direction.1;
        assert((-x) * (-x) == x * x) by (nonlinear_arith);
        assert((-y) * (-y) == y * y) by (nonlinear_arith);
    }
    if pointed(f.draws.enemy_dx, f.draws.enemy_dy) {
        lemma_heading_is_unit(draw_fraction(f.draws.enemy_dx), draw_fraction(f.draws.enemy_dy));
    }
}

/// After a tick in a window that is at least as large as an entity, the
/// player and every enemy that was there before the tick lie inside the
/// window, half their size away from each edge.
pub proof fn law_step_keeps_inside(w: WorldModel, f: Frame)
    requires
        ENEMY_SIZE <= f.width <= i64::MAX,
        ENEMY_SIZE <= f.height <= i64::MAX,
    ensures
        ({
            let after = stepped(w, f.dt, f.keys, f.width, f.height, f.draws);
            &&& after.player matches Some(p) ==> inside_margins(
                p.position,
                PLAYER_SIZE / 2,
                f.width,
                f.height,
            )
            &&& forall|i: int|
                0 <= i < w.enemies.len() ==> inside_margins(
                    (#[trigger] after.enemies[i]).position,
                    ENEMY_SIZE / 2,
                    f.width,
                    f.height,
                )
        }),
{
}

/// The sum of the given times.
pub open spec fn total(dts: Seq<nat>) -> nat
    decreases dts.len(),
{
    if dts.len() == 0 {
        0
    } else {
        total(dts.drop_last()) + dts.last()
    }
}

/// The timer after the given ticks, one after the other.
pub open spec fn ticked_through(t: TimerModel, dts: Seq<nat>) -> TimerModel
    decreases dts.len(),
{
    if dts.len() == 0 {
        t
    } else {
        ticked(ticked_through(t, dts.drop_last()), dts.last())
    }
}

/// How often the timer fires in all during the given ticks.
pub open spec fn firings(t: TimerModel, dts: Seq<nat>) -> nat
    decreases dts.len(),
{
    if dts.len() == 0 {
        0
    } else {
        firings(t, dts.drop_last()) + ticked_through(t, dts).fired
    }
}

/// Adding `d` to a time `x` splits into the periods of `x` and the periods
/// that the remainder of `x` and `d` fill.
proof fn lemma_carry(x: int, d: int, p: int)
    requires
        0 <= x,
        0 <= d,
        0 < p,
    ensures
        x / p + (x % p + d) / p == (x + d) / p,
        (x % p + d) % p == (x + d) % p,
{
    let q = x / p;
    let r = x % p;
    let q2 = (r + d) / p;
    let r2 = (r + d) % p;
    lemma_fundamental_div_mod(x, p);
    lemma_fundamental_div_mod(r + d, p);
    assert(x + d == (q + q2) * p + r2) by (nonlinear_arith)
        requires
            x == p * q + r,
            r + d == p * q2 + r2,
    ;
    lemma_fundamental_div_mod_converse(x + d, p, q + q2, r2);
}

/// However a stretch of time is cut into ticks, a timer fires once for
/// each period that has passed in all, and keeps the remainder.
pub proof fn law_timer_fires_once_per_period(t: TimerModel, dts: Seq<nat>)
    requires
        0 < t.period,
        t.elapsed < t.period,
    ensures
        firings(t, dts) == (t.elapsed + total(dts)) / t.period,
        ticked_through(t, dts).elapsed == (t.elapsed + total(dts)) % t.period,
        ticked_through(t, dts).period == t.period,
    decreases dts.len(),
{
    let p = t.period as int;
    if dts.len() == 0 {
        assert(t.elapsed as int / p == 0 && t.elapsed as int % p == t.elapsed) by (nonlinear_arith)
            requires
                0 <= t.elapsed < p,
        ;
    } else {
        law_timer_fires_once_per_period(t, dts.drop_last());
        lemma_carry((t.elapsed + total(dts.drop_last())) as int, dts.last() as int, p);
    }
}

/// A timer that starts empty and is ticked for `k` periods in all, in
/// whatever pieces, fires exactly `k` times and is empty again: once for
/// one period, twice for two.
pub proof fn law_timer_whole_periods(t: TimerModel, dts: Seq<nat>, k: nat)
    requires
        0 < t.period,
        t.elapsed == 0,
        total(dts) == k * t.period,
    ensures
        firings(t, dts) == k,
        ticked_through(t, dts).elapsed == 0,
{
    law_timer_fires_once_per_period(t, dts);
    let p = t.period as int;
    assert((k * p) / p == k && (k * p) % p == 0) by (nonlinear_arith)
        requires
            0 < p,
            0 <= k,
    ;
}

} // verus!
