//! The records of the entity store: player, enemies, stars and the score.

use vstd::prelude::*;
use crate::direction::Direction;
use crate::geometry::Point;

verus! {

/// The player. There is at most one.
#[derive(Clone, Copy, Debug, PartialEq, Eq, Structural)]
pub struct Player {
    pub position: Point,
}

/// A star waiting to be collected.
#[derive(Clone, Copy, Debug, PartialEq, Eq, Structural)]
pub struct Star {
    pub position: Point,
}

/// An enemy and the direction in which it roams.
#[derive(Clone, Copy, Debug, PartialEq, Eq)]
pub struct Enemy {
    pub position: Point,
    pub direction: Direction,
}

/// What the rules read of an enemy: its place and the two components of its
/// direction.
pub struct EnemyModel {
    pub position: Point,
    pub direction: (int, int),
}

impl View for Enemy {
    type V = EnemyModel;

    open spec fn view(&self) -> EnemyModel {
        EnemyModel { position: self.position, direction: self.direction@ }
    }
}

/// What the rules read of a list of enemies.
pub open spec fn models(enemies: Seq<Enemy>) -> Seq<EnemyModel> {
    enemies.map_values(|e: Enemy| e@)
}

/// The models of a list that grew by one enemy are the old models with the
/// model of that enemy at their end.
pub proof fn lemma_models_push(before: Seq<Enemy>, after: Seq<Enemy>)
    requires
        after.len() == before.len() + 1,
        after.drop_last() == before,
    ensures
        models(after) == models(before).push(after.last()@),
{
    assert forall|i: int| 0 <= i < after.len() implies models(after)[i] == models(before).push(
        after.last()@,
    )[i] by {
        if i < before.len() {
            assert(after[i] == after.drop_last()[i]);
        }
    }
}

/// The number of stars collected so far.
#[derive(Clone, Copy, Debug, PartialEq, Eq)]
pub struct Score {
    value: u32,
}

impl View for Score {
    type V = nat;

    closed spec fn view(&self) -> nat {
        self.value as nat
    }
}

/// The score after `collected` more stars: it stops at the largest value
/// that the counter holds.
pub open spec fn raised(score: nat, collected: nat) -> nat {
    if score + collected > u32::MAX {
        u32::MAX as nat
    } else {
        score + collected
    }
}

impl Default for Score {
    fn default() -> (s: Score)
        ensures
            s@ == 0,
    {
        Score { value: 0 }
    }
}

impl Score {
    /// A score that stands at `value`.
    pub fn new(value: u32) -> (s: Score)
        ensures
            s@ == value,
    {
        Score { value }
    }

    /// The count fits the counter.
    pub proof fn lemma_fits(self)
        ensures
            self@ <= u32::MAX,
    {
    }

    /// The current count.
    pub fn value(&self) -> (v: u32)
        ensures
            v == self@,
    {
        self.value
    }

    /// Counts one more star.
    pub fn increment(&mut self)
        ensures
            final(self)@ == raised(old(self)@, 1),
    {
        if self.value < u32::MAX {
            self.value = self.value + 1;
        }
    }
}

} // verus!
