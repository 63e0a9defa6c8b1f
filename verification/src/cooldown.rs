//! Per-actor verb cooldowns: two independent one-shot countdown timers.
//!
//! `left` gates throwing, `right` gates pulling, holding and dropping. A
//! timer that was never set reports finished. The timings follow the
//! classic gravity-gun tuning: half a second after a drop, nine tenths after
//! a grab, one tenth between pull impulses.

use vstd::prelude::*;

use crate::actor::Actor;
use crate::{AvianPickupSystem, Schedule, SystemEntry, SystemId};

verus! {

/// Register the cooldown tick in the timer stage of a host schedule.
pub fn plugin(schedule: &mut Schedule)
    ensures
        final(schedule).systems@ == old(schedule).systems@ + seq![
            (SystemEntry { id: SystemId::TickCooldowns, set: AvianPickupSystem::TickTimers }),
        ],
{
    schedule.systems.push(
        SystemEntry { id: SystemId::TickCooldowns, set: AvianPickupSystem::TickTimers },
    );
}

/// Cooldown after dropping a held prop, for both buttons, in microseconds.
pub const DROP_COOLDOWN_MICROS: u64 = 500_000;

/// Cooldown after grabbing a prop, for the right button, in microseconds.
/// One merged delay: it supersedes the two separate extensions of the
/// classic tuning rather than adding them.
pub const HOLD_COOLDOWN_MICROS: u64 = 900_000;

/// Cooldown between pull impulses, for the right button, in microseconds.
pub const PULL_COOLDOWN_MICROS: u64 = 100_000;

/// A one-shot countdown timer over integer microseconds.
///
/// The timer is set with a duration and ticks upward; elapsed time is
/// clamped at the duration, so it never leaves `0 ..= duration`.
#[derive(Clone, Copy, Debug, PartialEq, Eq, Structural)]
pub struct Timer {
    /// Ticked time since the timer was last set, clamped at the duration.
    pub elapsed_micros: u64,
    /// The duration the timer was last set with.
    pub duration_micros: u64,
}

impl Timer {
    /// The timer has counted down: elapsed time has reached the duration.
    pub open spec fn finished_spec(self) -> bool {
        self.elapsed_micros >= self.duration_micros
    }

    /// Elapsed time never exceeds the set duration.
    pub open spec fn wf(self) -> bool {
        self.elapsed_micros <= self.duration_micros
    }

    /// The timer after one tick of `dt` microseconds.
    pub open spec fn tick_spec(self, dt: u64) -> Timer {
        Timer {
            elapsed_micros: if self.elapsed_micros + dt <= self.duration_micros {
                (self.elapsed_micros + dt) as u64
            } else {
                self.duration_micros
            },
            duration_micros: self.duration_micros,
        }
    }

    /// A timer that was never set: it reports finished at once.
    pub fn never_set() -> (t: Timer)
        ensures
            t == (Timer { elapsed_micros: 0u64, duration_micros: 0u64 }),
            t.finished_spec(),
            t.wf(),
    {
        Timer { elapsed_micros: 0, duration_micros: 0 }
    }

    /// Set the timer as a fresh one-shot of `duration_micros`.
    pub fn one_shot(duration_micros: u64) -> (t: Timer)
        ensures
            t == (Timer { elapsed_micros: 0u64, duration_micros }),
            t.wf(),
    {
        Timer { elapsed_micros: 0, duration_micros }
    }

    /// Whether the timer has counted down.
    pub fn finished(&self) -> (r: bool)
        ensures
            r == self.finished_spec(),
    {
        self.elapsed_micros >= self.duration_micros
    }

    /// Advance the timer by `dt` microseconds, clamped at the duration.
    pub fn tick(&mut self, dt: u64)
        requires
            old(self).wf(),
        ensures
            *final(self) == old(self).tick_spec(dt),
            final(self).wf(),
    {
        if dt <= self.duration_micros - self.elapsed_micros {
            self.elapsed_micros = self.elapsed_micros + dt;
        } else {
            self.elapsed_micros = self.duration_micros;
        }
    }
}

/// The pair of verb cooldown timers carried by each actor.
#[derive(Clone, Copy, Debug, PartialEq, Eq, Structural)]
pub struct Cooldown {
    /// Gates the throw verb.
    pub left: Timer,
    /// Gates the pull, hold and drop verbs.
    pub right: Timer,
}

impl Cooldown {
    /// Both timers well formed.
    pub open spec fn wf(self) -> bool {
        self.left.wf() && self.right.wf()
    }

    /// A fresh cooldown: both timers never set, so both report finished.
    pub fn new() -> (c: Cooldown)
        ensures
            c.left == (Timer { elapsed_micros: 0u64, duration_micros: 0u64 }),
            c.right == (Timer { elapsed_micros: 0u64, duration_micros: 0u64 }),
            c.wf(),
    {
        Cooldown { left: Timer::never_set(), right: Timer::never_set() }
    }

    /// A held prop was dropped: both timers become a half-second one-shot.
    pub fn drop_held(&mut self)
        ensures
            final(self).left == (Timer {
                elapsed_micros: 0u64,
                duration_micros: DROP_COOLDOWN_MICROS,
            }),
            final(self).right == (Timer {
                elapsed_micros: 0u64,
                duration_micros: DROP_COOLDOWN_MICROS,
            }),
            final(self).wf(),
    {
        self.left = Timer::one_shot(DROP_COOLDOWN_MICROS);
        self.right = Timer::one_shot(DROP_COOLDOWN_MICROS);
    }

    /// A prop was grabbed: the right timer becomes a 0.9 s one-shot.
    pub fn hold(&mut self)
        requires
            old(self).wf(),
        ensures
            final(self).left == old(self).left,
            final(self).right == (Timer {
                elapsed_micros: 0u64,
                duration_micros: HOLD_COOLDOWN_MICROS,
            }),
            final(self).wf(),
    {
        self.right = Timer::one_shot(HOLD_COOLDOWN_MICROS);
    }

    /// A pull impulse fired: the right timer becomes a 0.1 s one-shot.
    pub fn pull(&mut self)
        requires
            old(self).wf(),
        ensures
            final(self).left == old(self).left,
            final(self).right == (Timer {
                elapsed_micros: 0u64,
                duration_micros: PULL_COOLDOWN_MICROS,
            }),
            final(self).wf(),
    {
        self.right = Timer::one_shot(PULL_COOLDOWN_MICROS);
    }

    /// Advance both timers by `dt` microseconds.
    pub fn tick(&mut self, dt: u64)
        requires
            old(self).wf(),
        ensures
            final(self).left == old(self).left.tick_spec(dt),
            final(self).right == old(self).right.tick_spec(dt),
            final(self).wf(),
    {
        self.left.tick(dt);
        self.right.tick(dt);
    }
}

/// A timer after a whole sequence of ticks.
pub open spec fn ticked(t: Timer, dts: Seq<u64>) -> Timer
    decreases dts.len(),
{
    if dts.len() == 0 {
        t
    } else {
        ticked(t, dts.drop_last()).tick_spec(dts.last())
    }
}

/// The cumulative time of a sequence of ticks, over mathematical integers.
pub open spec fn total_ticked(dts: Seq<u64>) -> int
    decreases dts.len(),
{
    if dts.len() == 0 {
        0int
    } else {
        total_ticked(dts.drop_last()) + dts.last()
    }
}

/// Cooldown law. However a timer is ticked after being set, its elapsed
/// time is the cumulative ticked time clamped at the set duration: it is
/// finished exactly when the cumulative ticked time since the set has
/// reached the set duration, and it never runs past the duration (nor, being
/// unsigned, below zero). Setting by `drop_held`, `hold` or `pull` is
/// `Timer { elapsed_micros: 0, duration_micros: d }` with the respective
/// duration, so the law covers any sequence of those calls interleaved with
/// ticks: only the most recent set and the ticks after it decide.
pub proof fn lemma_cooldown_law(d: u64, dts: Seq<u64>)
    ensures
        ticked(Timer { elapsed_micros: 0u64, duration_micros: d }, dts).duration_micros == d,
        ticked(Timer { elapsed_micros: 0u64, duration_micros: d }, dts).elapsed_micros as int == if total_ticked(
            dts,
        ) <= d {
            total_ticked(dts)
        } else {
            d as int
        },
        ticked(Timer { elapsed_micros: 0u64, duration_micros: d }, dts).finished_spec()
            <==> total_ticked(dts) >= d,
    decreases dts.len(),
{
    let t0 = Timer { elapsed_micros: 0u64, duration_micros: d };
    if dts.len() > 0 {
        lemma_cooldown_law(d, dts.drop_last());
    }
}

/// What the cooldown tick does to the actors: both timers of each advance
/// by `dt`, clamped at their durations; nothing else changes.
pub open spec fn tick_applied(actors0: Seq<Actor>, dt: u64, actors1: Seq<Actor>) -> bool {
    &&& actors1.len() == actors0.len()
    &&& forall|i: int|
        0 <= i < actors0.len() ==> #[trigger] actors1[i] == (Actor {
            cooldown: Cooldown {
                left: actors0[i].cooldown.left.tick_spec(dt),
                right: actors0[i].cooldown.right.tick_spec(dt),
            },
            ..actors0[i]
        })
}

/// Advance the cooldowns of every actor by the step's delta time.
pub fn tick(actors: &mut Vec<Actor>, dt: u64)
    requires
        forall|i: int| 0 <= i < old(actors).len() ==> #[trigger] old(actors)[i].cooldown.wf(),
    ensures
        tick_applied(old(actors)@, dt, final(actors)@),
{
    let n = actors.len();
    let mut i: usize = 0;
    while i < n
        invariant
            n == old(actors).len(),
            actors.len() == n,
            0 <= i <= n,
            forall|j: int| 0 <= j < n ==> #[trigger] old(actors)[j].cooldown.wf(),
            forall|j: int| i <= j < n ==> #[trigger] actors[j] == old(actors)[j],
            forall|j: int|
                0 <= j < i ==> #[trigger] actors[j] == (Actor {
                    cooldown: Cooldown {
                        left: old(actors)[j].cooldown.left.tick_spec(dt),
                        right: old(actors)[j].cooldown.right.tick_spec(dt),
                    },
                    ..old(actors)[j]
                }),
        decreases n - i,
    {
        let mut a = actors[i];
        a.cooldown.tick(dt);
        actors.set(i, a);
        i = i + 1;
    }
}

} // verus!
