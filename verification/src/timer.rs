//! The two repeating timers that pace the spawning of stars and enemies.

use bevy::time::{Timer, TimerMode};
use std::time::Duration;
use vstd::arithmetic::div_mod::{lemma_fundamental_div_mod, lemma_fundamental_div_mod_converse};
use vstd::prelude::*;
use crate::rules::{ENEMY_SPAWN_TIME, STAR_SPAWN_TIME};

verus! {

/// What the rules read of a repeating timer, all in nanoseconds: its
/// period, the time gathered since it last fired, and how often it fired
/// during the last tick.
pub struct TimerModel {
    pub period: nat,
    pub elapsed: nat,
    pub fired: nat,
}

/// The timer after `dt` nanoseconds more: it fires once for each period
/// that the gathered time has reached and keeps the remainder.
pub open spec fn ticked(t: TimerModel, dt: nat) -> TimerModel {
    TimerModel {
        period: t.period,
        elapsed: (t.elapsed + dt) % t.period,
        fired: (t.elapsed + dt) / t.period,
    }
}

/// Whether the timer fired during its last tick.
pub open spec fn has_fired(t: TimerModel) -> bool {
    t.fired > 0
}

/// One tick of a repeating `bevy::time::Timer` that is built with the given
/// period and elapsed time, both in nanoseconds: `Timer::new`,
/// `Timer::set_elapsed`, `Timer::tick`, then `Timer::elapsed` and
/// `Timer::times_finished_this_tick`. The tick adds `delta` to the elapsed
/// time, counts the whole periods in the sum and keeps the remainder; bevy
/// holds the count in 32 bits, so the sum must span no more periods than
/// that.
#[verifier::external_body]
fn repeating_tick(period: u64, elapsed: u64, delta: u64) -> (r: (u64, u32))
    requires
        0 < period,
        (elapsed + delta) / (period as int) <= u32::MAX,
    ensures
        r.0 == (elapsed + delta) % (period as int),
        r.1 == (elapsed + delta) / (period as int),
{
    let mut timer = Timer::new(Duration::from_nanos(period), TimerMode::Repeating);
    timer.set_elapsed(Duration::from_nanos(elapsed));
    timer.tick(Duration::from_nanos(delta));
    (timer.elapsed().as_nanos() as u64, timer.times_finished_this_tick())
}

/// A time short of two periods holds at most one period.
proof fn lemma_two_periods(sum: int, period: int)
    by (nonlinear_arith)
    requires
        0 < period,
        0 <= sum < 2 * period,
    ensures
        0 <= sum / period <= 1,
{
}

/// The periods in a time that exceeds the range of 64 bits by less than
/// one period can be counted in 64 bits.
proof fn lemma_count_fits(count: int, period: int, rest: int, total: int)
    by (nonlinear_arith)
    requires
        0 < period,
        0 <= rest,
        0 <= count,
        total == count * period + rest,
        total <= period + 0xffff_ffff_ffff_fffe,
    ensures
        count <= 0xffff_ffff_ffff_ffff,
{
}

/// The periods of a tick are the whole periods in it and the one that
/// the rest may fill together with the time gathered before.
proof fn lemma_split(whole: int, carry: int, period: int, left: int, rest: int, dt: int, elapsed: int)
    by (nonlinear_arith)
    requires
        dt == period * whole + rest,
        elapsed + rest == period * carry + left,
    ensures
        elapsed + dt == (whole + carry) * period + left,
{
}

/// A repeating timer with a period of its own.
#[derive(Clone, Copy, Debug, PartialEq, Eq)]
pub struct SpawnTimer {
    period: u64,
    elapsed: u64,
    fired: u64,
}

impl View for SpawnTimer {
    type V = TimerModel;

    closed spec fn view(&self) -> TimerModel {
        TimerModel {
            period: self.period as nat,
            elapsed: self.elapsed as nat,
            fired: self.fired as nat,
        }
    }
}

impl SpawnTimer {
    /// What holds of every timer: the period is positive and the gathered
    /// time is short of it.
    #[verifier::type_invariant]
    pub open spec fn is_running(self) -> bool {
        0 < self@.period && self@.elapsed < self@.period
    }

    /// A timer that has gathered no time yet, or `None` for a period of
    /// zero.
    pub fn repeating(period: u64) -> (r: Option<SpawnTimer>)
        ensures
            r is None <==> period == 0,
            r matches Some(t) ==> t@ == (TimerModel { period: period as nat, elapsed: 0, fired: 0 }),
    {
        if period == 0 {
            None
        } else {
            Some(SpawnTimer { period, elapsed: 0, fired: 0 })
        }
    }

    /// Advances the timer by `dt` nanoseconds. The whole periods within
    /// `dt` are counted here, in 64 bits; the rest of `dt` goes through
    /// bevy's timer, which gathers it and fires once more where the
    /// gathered time reaches the period.
    pub fn tick(&mut self, dt: u64)
        ensures
            final(self)@ == ticked(old(self)@, dt as nat),
            final(self).is_running(),
    {
        proof {
            use_type_invariant(&*self);
        }
        let period: u64 = self.period;
        let whole: u64 = dt / period;
        let rest: u64 = dt % period;
        proof {
            lemma_two_periods(self.elapsed + rest, period as int);
        }
        let (left, carry) = repeating_tick(period, self.elapsed, rest);
        proof {
            let sum = self.elapsed + dt;
            lemma_fundamental_div_mod(dt as int, period as int);
            lemma_fundamental_div_mod(self.elapsed + rest, period as int);
            lemma_split(
                whole as int,
                carry as int,
                period as int,
                left as int,
                rest as int,
                dt as int,
                self.elapsed as int,
            );
            lemma_count_fits(whole + carry, period as int, left as int, sum);
            lemma_fundamental_div_mod_converse(sum, period as int, whole + carry, left as int);
        }
        *self = SpawnTimer { period, elapsed: left, fired: whole + carry as u64 };
    }

    /// Whether the timer fired during its last tick.
    pub fn finished(&self) -> (r: bool)
        ensures
            r == has_fired(self@),
    {
        self.fired > 0
    }

    /// How often the timer fired during its last tick.
    pub fn times_finished_this_tick(&self) -> (r: u64)
        ensures
            r == self@.fired,
    {
        self.fired
    }

    /// The time gathered since the timer last fired, in nanoseconds.
    pub fn elapsed(&self) -> (r: u64)
        ensures
            r == self@.elapsed,
            self.is_running(),
    {
        proof {
            use_type_invariant(self);
        }
        self.elapsed
    }

    /// The period, in nanoseconds.
    pub fn period(&self) -> (r: u64)
        ensures
            r == self@.period,
            self.is_running(),
    {
        proof {
            use_type_invariant(self);
        }
        self.period
    }
}

/// The timer that paces new stars: it fires every `STAR_SPAWN_TIME`.
#[derive(Clone, Copy, Debug, PartialEq, Eq)]
pub struct StarSpawnTimer {
    timer: SpawnTimer,
}

impl View for StarSpawnTimer {
    type V = TimerModel;

    closed spec fn view(&self) -> TimerModel {
        self.timer@
    }
}

impl Default for StarSpawnTimer {
    fn default() -> (t: StarSpawnTimer)
        ensures
            t@ == (TimerModel { period: STAR_SPAWN_TIME as nat, elapsed: 0, fired: 0 }),
    {
        StarSpawnTimer { timer: SpawnTimer { period: STAR_SPAWN_TIME, elapsed: 0, fired: 0 } }
    }
}

impl StarSpawnTimer {
    /// What holds of every star timer: it runs with the period of the
    /// stars.
    #[verifier::type_invariant]
    pub open spec fn is_paced(self) -> bool {
        self@.period == STAR_SPAWN_TIME && self@.elapsed < self@.period
    }

    /// Whether the timer fired during its last tick.
    pub fn finished(&self) -> (r: bool)
        ensures
            r == has_fired(self@),
            self.is_paced(),
    {
        proof {
            use_type_invariant(self);
        }
        self.timer.finished()
    }

    /// How often the timer fired during its last tick.
    pub fn times_finished_this_tick(&self) -> (r: u64)
        ensures
            r == self@.fired,
    {
        self.timer.times_finished_this_tick()
    }

    /// The time gathered since the timer last fired, in nanoseconds.
    pub fn elapsed(&self) -> (r: u64)
        ensures
            r == self@.elapsed,
    {
        self.timer.elapsed()
    }
}

/// The timer that paces new enemies: it fires every `ENEMY_SPAWN_TIME`.
#[derive(Clone, Copy, Debug, PartialEq, Eq)]
pub struct EnemySpawnTimer {
    timer: SpawnTimer,
}

impl View for EnemySpawnTimer {
    type V = TimerModel;

    closed spec fn view(&self) -> TimerModel {
        self.timer@
    }
}

impl Default for EnemySpawnTimer {
    fn default() -> (t: EnemySpawnTimer)
        ensures
            t@ == (TimerModel { period: ENEMY_SPAWN_TIME as nat, elapsed: 0, fired: 0 }),
    {
        EnemySpawnTimer { timer: SpawnTimer { period: ENEMY_SPAWN_TIME, elapsed: 0, fired: 0 } }
    }
}

impl EnemySpawnTimer {
    /// What holds of every enemy timer: it runs with the period of the
    /// enemies.
    #[verifier::type_invariant]
    pub open spec fn is_paced(self) -> bool {
        self@.period == ENEMY_SPAWN_TIME && self@.elapsed < self@.period
    }

    /// Whether the timer fired during its last tick.
    pub fn finished(&self) -> (r: bool)
        ensures
            r == has_fired(self@),
            self.is_paced(),
    {
        proof {
            use_type_invariant(self);
        }
        self.timer.finished()
    }

    /// How often the timer fired during its last tick.
    pub fn times_finished_this_tick(&self) -> (r: u64)
        ensures
            r == self@.fired,
    {
        self.timer.times_finished_this_tick()
    }

    /// The time gathered since the timer last fired, in nanoseconds.
    pub fn elapsed(&self) -> (r: u64)
        ensures
            r == self@.elapsed,
    {
        self.timer.elapsed()
    }
}

/// Advances the star timer by `dt` nanoseconds.
pub fn tick_start(timer: &mut StarSpawnTimer, dt: u64)
    ensures
        final(timer)@ == ticked(old(timer)@, dt as nat),
        final(timer).is_paced(),
{
    proof {
        use_type_invariant(&*timer);
    }
    let mut inner: SpawnTimer = timer.timer;
    inner.tick(dt);
    *timer = StarSpawnTimer { timer: inner };
}

/// Advances the enemy timer by `dt` nanoseconds.
pub fn tick_enemy_timer(timer: &mut EnemySpawnTimer, dt: u64)
    ensures
        final(timer)@ == ticked(old(timer)@, dt as nat),
        final(timer).is_paced(),
{
    proof {
        use_type_invariant(&*timer);
    }
    let mut inner: SpawnTimer = timer.timer;
    inner.tick(dt);
    *timer = EnemySpawnTimer { timer: inner };
}

} // verus!
