//! What happens when the player touches an enemy or a star, and the report
//! of a changed score.

use vstd::prelude::*;
use crate::entities::{models, raised, Enemy, EnemyModel, Player, Score, Star};
use crate::geometry::{touches, within_reach, Point};
use crate::rules::{ENEMY_REACH, STAR_REACH};

verus! {

/// Whether there is a player and some enemy touches it.
pub open spec fn hit_by_any(player: Option<Player>, enemies: Seq<EnemyModel>) -> bool {
    player matches Some(p) && exists|i: int|
        0 <= i < enemies.len() && touches(
            p.position,
            (#[trigger] enemies[i]).position,
            ENEMY_REACH as int,
        )
}

/// The test that picks the stars that a player at `p` does not touch.
pub open spec fn out_of_reach(p: Point) -> spec_fn(Star) -> bool {
    |s: Star| !touches(p, s.position, STAR_REACH as int)
}

/// The test that picks the indices of the stars that a player at `p`
/// touches.
pub open spec fn index_in_reach(p: Point, stars: Seq<Star>) -> spec_fn(usize) -> bool {
    |i: usize| touches(p, stars[i as int].position, STAR_REACH as int)
}

/// The indices `0 .. n` in rising order.
pub open spec fn indices(n: nat) -> Seq<usize> {
    Seq::new(n, |i: int| i as usize)
}

/// The stars that stay after the player has collected all it touches, in
/// their old order.
pub open spec fn stars_left(player: Option<Player>, stars: Seq<Star>) -> Seq<Star> {
    match player {
        None => stars,
        Some(p) => stars.filter(out_of_reach(p.position)),
    }
}

/// The indices, in rising order, of the stars that the player touches.
pub open spec fn stars_taken(player: Option<Player>, stars: Seq<Star>) -> Seq<usize> {
    match player {
        None => Seq::empty(),
        Some(p) => indices(stars.len()).filter(index_in_reach(p.position, stars)),
    }
}

/// Removes the player if any enemy touches it. Returns whether that
/// happened: the one request for the explosion sound of this tick.
pub fn enemy_hit(player: &mut Option<Player>, enemies: &Vec<Enemy>) -> (hit: bool)
    ensures
        hit == hit_by_any(*old(player), models(enemies@)),
        *final(player) == if hit { None } else { *old(player) },
{
    let mut hit = false;
    if let Some(p) = player {
        let at: Point = p.position;
        let n = enemies.len();
        let mut i: usize = 0;
        while i < n
            invariant
                i <= n,
                n == enemies.len(),
                hit == exists|j: int|
                    0 <= j < i && touches(
                        at,
                        (#[trigger] models(enemies@)[j]).position,
                        ENEMY_REACH as int,
                    ),
            decreases n - i,
        {
            assert(models(enemies@)[i as int].position == enemies[i as int].position);
            if within_reach(at, enemies[i].position, ENEMY_REACH) {
                hit = true;
            }
            i += 1;
        }
    }
    if hit {
        *player = None;
    }
    hit
}

/// Removes every star that the player touches and counts each in the score.
/// Returns the indices that those stars had, in rising order: each asks for
/// the collect sound once. Without a player nothing changes.
pub fn player_collect_star(player: &Option<Player>, stars: &mut Vec<Star>, score: &mut Score) -> (taken:
    Vec<usize>)
    ensures
        final(stars)@ == stars_left(*player, old(stars)@),
        taken@ == stars_taken(*player, old(stars)@),
        taken@.len() + final(stars)@.len() == old(stars)@.len(),
        final(score)@ == raised(old(score)@, taken@.len()),
        final(score)@ >= old(score)@,
{
    let mut taken: Vec<usize> = Vec::new();
    proof {
        score.lemma_fits();
    }
    if let Some(p) = player {
        let at: Point = p.position;
        let ghost before = stars@;
        let ghost keep = out_of_reach(at);
        let ghost take = index_in_reach(at, before);
        let n = stars.len();
        let mut kept: Vec<Star> = Vec::new();
        let mut i: usize = 0;
        proof {
            before.take(0).lemma_filter_len(keep);
            indices(0).lemma_filter_len(take);
        }
        while i < n
            invariant
                i <= n,
                n == before.len(),
                stars@ == before,
                keep == out_of_reach(at),
                take == index_in_reach(at, before),
                kept@ == before.take(i as int).filter(keep),
                taken@ == indices(i as nat).filter(take),
                taken@.len() + kept@.len() == i,
                score@ == raised(old(score)@, taken@.len()),
            decreases n - i,
        {
            let s = stars[i];
            proof {
                before.take(i as int).lemma_filter_push(s, keep);
                indices(i as nat).lemma_filter_push(i, take);
                assert(before.take(i + 1) == before.take(i as int).push(s));
                assert(indices((i + 1) as nat) == indices(i as nat).push(i));
            }
            if within_reach(at, s.position, STAR_REACH) {
                taken.push(i);
                score.increment();
            } else {
                kept.push(s);
            }
            i += 1;
        }
        assert(before.take(n as int) == before);
        *stars = kept;
    }
    taken
}

/// Reports the score where it differs from the value of the tick before.
pub fn update_score(score: &Score, previous: u32) -> (changed: Option<u32>)
    ensures
        score@ == previous ==> changed is None,
        score@ != previous ==> changed == Some(score@ as u32),
{
    let now = score.value();
    if now != previous {
        Some(now)
    } else {
        None
    }
}

} // verus!
