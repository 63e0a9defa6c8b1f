//! The input classifier: maps per-actor input events, current state and
//! cooldown status to at most one verb per actor per step.

use vstd::prelude::*;

use crate::actor::{Actor, AvianPickupActorState};
use crate::cooldown::Cooldown;
use crate::verb::Verb;
use crate::{AvianPickupSystem, Schedule, SystemEntry, SystemId};

verus! {

/// Register the input classifier in the first stage of a host schedule.
pub fn plugin(schedule: &mut Schedule)
    ensures
        final(schedule).systems@ == old(schedule).systems@ + seq![
            (SystemEntry { id: SystemId::SetVerbs, set: AvianPickupSystem::First }),
        ],
{
    schedule.systems.push(SystemEntry { id: SystemId::SetVerbs, set: AvianPickupSystem::First });
}

/// Event for picking up and throwing objects. The host sends these to tell
/// the pickup core what an actor's input device did this step.
#[derive(Clone, Copy, Debug)]
pub struct AvianPickupInput {
    /// The id of the actor that the event is related to.
    pub actor: u64,
    /// The kind of input that the event represents.
    pub kind: AvianPickupInputKind,
}

/// The kind of input that an [`AvianPickupInput`] represents.
#[derive(Clone, Copy, Debug, PartialEq, Eq, Structural)]
pub enum AvianPickupInputKind {
    /// The left mouse button was just pressed this update.
    JustPressedL,
    /// The right mouse button was just pressed this update.
    JustPressedR,
    /// The right mouse button was pressed.
    PressedR,
}

/// The classification table: the verb, if any, that one event decides for an
/// actor in the given state with the given cooldowns.
///
/// - Left press, left timer finished: throw (with the held prop if holding).
/// - Right press while holding, right timer finished: drop the held prop.
/// - Right press or held right button while idle or pulling, right timer
///   finished: pull.
/// - Anything else decides nothing.
pub open spec fn verb_for(
    kind: AvianPickupInputKind,
    state: AvianPickupActorState,
    cooldown: Cooldown,
) -> Option<Verb> {
    match kind {
        AvianPickupInputKind::JustPressedL => if cooldown.left.finished_spec() {
            match state {
                AvianPickupActorState::Holding(prop) => Some(Verb::Throw(Some(prop))),
                _ => Some(Verb::Throw(None)),
            }
        } else {
            None
        },
        AvianPickupInputKind::JustPressedR => match state {
            AvianPickupActorState::Holding(prop) => if cooldown.right.finished_spec() {
                Some(Verb::Drop(prop))
            } else {
                None
            },
            _ => if cooldown.right.finished_spec() {
                Some(Verb::Pull)
            } else {
                None
            },
        },
        AvianPickupInputKind::PressedR => match state {
            AvianPickupActorState::Holding(_) => None,
            _ => if cooldown.right.finished_spec() {
                Some(Verb::Pull)
            } else {
                None
            },
        },
    }
}

/// Executable counterpart of the classification table [`verb_for`].
pub fn verb_for_input(
    kind: AvianPickupInputKind,
    state: AvianPickupActorState,
    cooldown: &Cooldown,
) -> (v: Option<Verb>)
    ensures
        v == verb_for(kind, state, *cooldown),
{
    match kind {
        AvianPickupInputKind::JustPressedL => if cooldown.left.finished() {
            match state {
                AvianPickupActorState::Holding(prop) => Some(Verb::Throw(Some(prop))),
                _ => Some(Verb::Throw(None)),
            }
        } else {
            None
        },
        AvianPickupInputKind::JustPressedR => match state {
            AvianPickupActorState::Holding(prop) => if cooldown.right.finished() {
                Some(Verb::Drop(prop))
            } else {
                None
            },
            _ => if cooldown.right.finished() {
                Some(Verb::Pull)
            } else {
                None
            },
        },
        AvianPickupInputKind::PressedR => match state {
            AvianPickupActorState::Holding(_) => None,
            _ => if cooldown.right.finished() {
                Some(Verb::Pull)
            } else {
                None
            },
        },
    }
}

/// No two actor records share an id.
pub open spec fn unique_actor_ids(actors: Seq<Actor>) -> bool {
    forall|i: int, j: int|
        0 <= i < j < actors.len() ==> #[trigger] actors[i].id != #[trigger] actors[j].id
}

/// Some record in the store carries this id.
pub open spec fn resolves(actors: Seq<Actor>, id: u64) -> bool {
    exists|i: int| 0 <= i < actors.len() && #[trigger] actors[i].id == id
}

/// The verb slot of the actor record `a0` after the first `n` events of the
/// step have been applied in arrival order. The slot starts cleared —
/// intentions never carry over from the last step — and an event that
/// decides nothing leaves the previous decision in place, so the last
/// decision wins on conflicting events.
pub open spec fn verb_after(a0: Actor, events: Seq<AvianPickupInput>, n: int) -> Option<Verb>
    decreases n,
{
    if n <= 0 {
        None
    } else {
        let prev = verb_after(a0, events, n - 1);
        let e = events[n - 1];
        if e.actor == a0.id {
            match verb_for(e.kind, a0.state, a0.cooldown) {
                Some(v) => Some(v),
                None => prev,
            }
        } else {
            prev
        }
    }
}

/// How many of the first `n` events referenced an actor id that no record
/// carries. Such events are dropped with a diagnostic; the step continues.
pub open spec fn dropped_after(actors: Seq<Actor>, events: Seq<AvianPickupInput>, n: int) -> int
    decreases n,
{
    if n <= 0 {
        0int
    } else {
        dropped_after(actors, events, n - 1) + if resolves(actors, events[n - 1].actor) {
            0int
        } else {
            1int
        }
    }
}

/// Find the record carrying `id`.
pub fn find_actor(actors: &Vec<Actor>, id: u64) -> (r: Option<usize>)
    ensures
        match r {
            Some(i) => i < actors.len() && actors[i as int].id == id,
            None => !resolves(actors@, id),
        },
{
    let n = actors.len();
    let mut i: usize = 0;
    while i < n
        invariant
            n == actors.len(),
            0 <= i <= n,
            forall|j: int| 0 <= j < i ==> #[trigger] actors@[j].id != id,
        decreases n - i,
    {
        if actors[i].id == id {
            return Some(i);
        }
        i = i + 1;
    }
    None
}

/// What the classifier pass does to the store: every actor keeps all its
/// fields but the verb slot, which holds the fold of the classification
/// table over the whole event stream.
pub open spec fn verbs_assigned(
    actors0: Seq<Actor>,
    events: Seq<AvianPickupInput>,
    actors1: Seq<Actor>,
) -> bool {
    &&& actors1.len() == actors0.len()
    &&& forall|i: int|
        0 <= i < actors0.len() ==> #[trigger] actors1[i] == (Actor {
            verb: verb_after(actors0[i], events, events.len() as int),
            ..actors0[i]
        })
}

/// Assign each actor's verb for this step from the event stream.
///
/// Every actor's slot is first cleared; each event then decides at most one
/// verb by the classification table, the last decision winning. Events whose
/// actor id resolves to no record are dropped and counted; the step goes on
/// for the others. Nothing but verb slots changes.
pub fn set_verbs_according_to_input(actors: &mut Vec<Actor>, events: &Vec<AvianPickupInput>) -> (dropped: usize)
    requires
        unique_actor_ids(old(actors)@),
    ensures
        verbs_assigned(old(actors)@, events@, final(actors)@),
        dropped as int == dropped_after(old(actors)@, events@, events@.len() as int),
{
    let n = actors.len();
    let mut i: usize = 0;
    while i < n
        invariant
            n == old(actors).len(),
            actors.len() == n,
            0 <= i <= n,
            forall|j: int| i <= j < n ==> #[trigger] actors[j] == old(actors)[j],
            forall|j: int|
                0 <= j < i ==> #[trigger] actors[j] == (Actor {
                    verb: None,
                    ..old(actors)[j]
                }),
        decreases n - i,
    {
        let mut a = actors[i];
        a.verb = None;
        actors.set(i, a);
        i = i + 1;
    }
    let m = events.len();
    let mut k: usize = 0;
    let mut dropped: usize = 0;
    while k < m
        invariant
            unique_actor_ids(old(actors)@),
            n == old(actors).len(),
            actors.len() == n,
            m == events.len(),
            0 <= k <= m,
            dropped <= k,
            forall|j: int|
                0 <= j < n ==> #[trigger] actors[j] == (Actor {
                    verb: verb_after(old(actors)[j], events@, k as int),
                    ..old(actors)[j]
                }),
            dropped as int == dropped_after(old(actors)@, events@, k as int),
        decreases m - k,
    {
        let e = events[k];
        match find_actor(actors, e.actor) {
            Some(idx) => {
                proof {
                    assert(actors@[idx as int].id == old(actors)@[idx as int].id);
                    assert(resolves(old(actors)@, e.actor));
                }
                let mut a = actors[idx];
                match verb_for_input(e.kind, a.state, &a.cooldown) {
                    Some(v) => {
                        a.verb = Some(v);
                        actors.set(idx, a);
                    },
                    None => {},
                }
                proof {
                    assert forall|j: int| 0 <= j < n && j != idx implies old(actors)@[j].id
                        != e.actor by {
                        if old(actors)@[j].id == e.actor {
                            assert(old(actors)@[idx as int].id == e.actor);
                        }
                    }
                }
            },
            None => {
                proof {
                    assert forall|j: int| 0 <= j < n implies old(actors)@[j].id != e.actor by {
                        assert(actors@[j].id == old(actors)@[j].id);
                    }
                }
                dropped = dropped + 1;
            },
        }
        k = k + 1;
    }
    dropped
}

} // verus!
