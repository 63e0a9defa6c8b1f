//! A physics-based "grab" interaction for actors in a simulated 3D world:
//! pick up, carry, pull, and drop rigid props, in the style of a gravity gun.
//!
//! The crate is the control core alone. It owns the per-actor verb state
//! machine, the object-acquisition search, the cooldown timers, and the
//! shadow/hold controller that drags a held prop toward a target pose in
//! velocity space. The host owns everything else: entity storage, the physics
//! integrator, ray and shape casts, input polling. Once per simulation step
//! the host hands this crate the current records, the classified input
//! events, and the cast results, and applies the outputs (velocities,
//! impulses) back to its engine.
//!
//! All quantities are fixed-point integers in micro-units: time in
//! microseconds, lengths in micrometers, masses in micrograms, and so on.
//! One unit of the host's world maps to [`math::SCALE`] fixed-point units.

use vstd::prelude::*;

pub mod actor;
pub mod cooldown;
pub mod input;
pub mod interaction;
pub mod math;
pub mod prop;
pub mod verb;

use crate::actor::{Actor, AvianPickupActorState};
use crate::cooldown::tick_applied;
use crate::input::{dropped_after, unique_actor_ids, verbs_assigned, AvianPickupInput};
use crate::interaction::drop::drop_applied;
use crate::interaction::hold::{
    grabcontroller_simulate, held, hold, holding_pairs, sim_ready, simulate_applied,
    simulated_held, RotationError, MAX_STEP_MICROS,
};
use crate::interaction::hold::on_hold::{hold_entry_applied, on_hold};
use crate::interaction::pull::{
    find_object, flush_applied, flush_pulling_state, impulses_after, pull_applied, pull_ready,
    CastSet, ImpulseCommand,
};
use crate::interaction::throw::throw_applied;
use crate::prop::Prop;

verus! {

/// No two prop records share an id.
pub open spec fn unique_prop_ids(props: Seq<Prop>) -> bool {
    forall|i: int, j: int|
        0 <= i < j < props.len() ==> #[trigger] props[i].id != #[trigger] props[j].id
}

/// A prop carries the full grab bookkeeping of a held prop: both ephemeral
/// components, the mass snapshot and the rotation offset.
pub open spec fn has_grab_components(p: Prop) -> bool {
    p.grab.is_some() && p.shadow.is_some() && p.non_pickup_mass.is_some()
        && p.pre_pickup_rotation.is_some()
}

/// Two actors hold the same prop.
pub open spec fn holding_same(a: Actor, b: Actor) -> bool {
    match (a.state, b.state) {
        (AvianPickupActorState::Holding(p), AvianPickupActorState::Holding(q)) => p == q,
        _ => false,
    }
}

/// Actor `i` holds the prop with id `pid`.
pub open spec fn holder_of(actors: Seq<Actor>, pid: u64, i: int) -> bool {
    0 <= i < actors.len() && actors[i].state == AvianPickupActorState::Holding(pid)
}

/// Coherence of the store the host hands to each step.
///
/// Ids are unique on both sides. A held prop — one some actor's state points
/// at — carries the full grab bookkeeping; a prop carrying grab bookkeeping
/// has a holder; the two ephemeral components come and go together; and no
/// prop is held by two actors. Together with the state being one enum —
/// idle, pulling or holding, never two at once — this is the state
/// exclusivity of the mechanic: in a store where every actor is idle, no
/// prop carries ephemeral grab components (see
/// [`lemma_idle_means_no_ephemerals`]).
pub open spec fn wf_store(actors: Seq<Actor>, props: Seq<Prop>) -> bool {
    &&& unique_actor_ids(actors)
    &&& unique_prop_ids(props)
    &&& (forall|i: int, j: int|
        0 <= i < actors.len() && 0 <= j < props.len() && (#[trigger] actors[i]).state
            == AvianPickupActorState::Holding((#[trigger] props[j]).id)
            ==> has_grab_components(props[j]))
    &&& (forall|j: int|
        0 <= j < props.len() && (#[trigger] props[j]).grab.is_some() ==> exists|i: int|
            holder_of(actors, props[j].id, i))
    &&& (forall|j: int|
        0 <= j < props.len() ==> ((#[trigger] props[j]).shadow.is_some()
            <==> props[j].grab.is_some()))
    &&& (forall|i: int, k: int|
        0 <= i < k < actors.len() ==> !holding_same(#[trigger] actors[i], #[trigger] actors[k]))
}

/// State exclusivity, one consequence spelled out: in a coherent store
/// where every actor is idle, no prop carries the ephemeral grab
/// components.
pub proof fn lemma_idle_means_no_ephemerals(actors: Seq<Actor>, props: Seq<Prop>)
    requires
        wf_store(actors, props),
        forall|i: int|
            0 <= i < actors.len() ==> (#[trigger] actors[i]).state
                == AvianPickupActorState::Idle,
    ensures
        forall|j: int|
            0 <= j < props.len() ==> (#[trigger] props[j]).grab.is_none() && props[j].shadow.is_none(),
{
    assert forall|j: int|
        0 <= j < props.len() implies (#[trigger] props[j]).grab.is_none()
        && props[j].shadow.is_none() by {
        if props[j].grab.is_some() {
            let i = choose|i: int| holder_of(actors, props[j].id, i);
        }
    }
}

/// State exclusivity, the other consequence spelled out: in a coherent
/// store no prop is held by two actors.
pub proof fn lemma_holding_exclusive(actors: Seq<Actor>, props: Seq<Prop>, i: int, k: int)
    requires
        wf_store(actors, props),
        0 <= i < actors.len(),
        0 <= k < actors.len(),
        i != k,
    ensures
        !holding_same(actors[i], actors[k]),
{
}

/// A change that neither enters nor leaves any holding state, and keeps
/// every id, keeps the store coherent.
pub proof fn lemma_wf_actors_same_holdings(actors0: Seq<Actor>, actors1: Seq<Actor>, props: Seq<Prop>)
    requires
        wf_store(actors0, props),
        actors1.len() == actors0.len(),
        forall|i: int|
            0 <= i < actors0.len() ==> (#[trigger] actors1[i]).id == actors0[i].id && ((
            actors1[i].state matches AvianPickupActorState::Holding(_) || actors0[i].state
                matches AvianPickupActorState::Holding(_)) ==> actors1[i].state
                == actors0[i].state),
    ensures
        wf_store(actors1, props),
{
    assert forall|x: int, y: int| 0 <= x < y < actors1.len() implies #[trigger] actors1[x].id
        != #[trigger] actors1[y].id by {
        assert(actors1[x].id == actors0[x].id && actors1[y].id == actors0[y].id);
    }
    assert forall|x: int, y: int|
        0 <= x < actors1.len() && 0 <= y < props.len() && (#[trigger] actors1[x]).state
            == AvianPickupActorState::Holding((#[trigger] props[y]).id) implies
        has_grab_components(props[y]) by {
        assert(actors0[x].state == actors1[x].state);
    }
    assert forall|y: int|
        0 <= y < props.len() && (#[trigger] props[y]).grab.is_some() implies exists|x: int|
        holder_of(actors1, props[y].id, x) by {
        let h = choose|h: int| holder_of(actors0, props[y].id, h);
        assert(holder_of(actors1, props[y].id, h));
    }
    assert forall|x: int, y: int| 0 <= x < y < actors1.len() implies !holding_same(
        #[trigger] actors1[x],
        #[trigger] actors1[y],
    ) by {
        assert(!holding_same(actors0[x], actors0[y]));
        if holding_same(actors1[x], actors1[y]) {
            assert(actors1[x].state == actors0[x].state);
            assert(actors1[y].state == actors0[y].state);
        }
    }
}

/// A change to the props that keeps every id and the presence of each piece
/// of grab bookkeeping keeps the store coherent.
pub proof fn lemma_wf_props_same_shape(actors: Seq<Actor>, props0: Seq<Prop>, props1: Seq<Prop>)
    requires
        wf_store(actors, props0),
        props1.len() == props0.len(),
        forall|j: int|
            0 <= j < props0.len() ==> (#[trigger] props1[j]).id == props0[j].id
                && props1[j].grab.is_some() == props0[j].grab.is_some()
                && props1[j].shadow.is_some() == props0[j].shadow.is_some()
                && props1[j].non_pickup_mass.is_some() == props0[j].non_pickup_mass.is_some()
                && props1[j].pre_pickup_rotation.is_some()
                == props0[j].pre_pickup_rotation.is_some(),
    ensures
        wf_store(actors, props1),
{
    assert forall|x: int, y: int| 0 <= x < y < props1.len() implies #[trigger] props1[x].id
        != #[trigger] props1[y].id by {
        assert(props1[x].id == props0[x].id && props1[y].id == props0[y].id);
    }
    assert forall|x: int, y: int|
        0 <= x < actors.len() && 0 <= y < props1.len() && (#[trigger] actors[x]).state
            == AvianPickupActorState::Holding((#[trigger] props1[y]).id) implies
        has_grab_components(props1[y]) by {
        assert(actors[x].state == AvianPickupActorState::Holding(props0[y].id));
        assert(has_grab_components(props0[y]));
    }
    assert forall|y: int|
        0 <= y < props1.len() && (#[trigger] props1[y]).grab.is_some() implies exists|x: int|
        holder_of(actors, props1[y].id, x) by {
        assert(props0[y].grab.is_some());
        let h = choose|h: int| holder_of(actors, props0[y].id, h);
        assert(holder_of(actors, props1[y].id, h));
    }
}

/// The intermediate stores of one step, recorded so that the step's
/// contract can pin its outcome as the composition of the phase contracts:
/// each field is the store as one stage of the pipeline left it.
pub struct PipelineTrace {
    /// The actors once the input classifier assigned this step's verbs.
    pub after_classifier: Seq<Actor>,
    /// The actors once the pull phase ran; the props are untouched so far.
    pub after_pull: Seq<Actor>,
    /// The actors once hold entry ran.
    pub after_hold_actors: Seq<Actor>,
    /// The props once hold entry ran.
    pub after_hold_props: Seq<Prop>,
    /// The props once the shadow controller drove every held prop.
    pub after_simulate: Seq<Prop>,
    /// The actors once the drop handler ran.
    pub after_drop_actors: Seq<Actor>,
    /// The props once the drop handler ran.
    pub after_drop_props: Seq<Prop>,
    /// The actors once the throw handler ran; the props it leaves are the
    /// final props, the later stages touching actors alone.
    pub after_throw: Seq<Actor>,
    /// The actors once the idle reset ran; the cooldown tick takes them to
    /// the final actors.
    pub after_flush: Seq<Actor>,
}

/// What one simulation step hands back to the host.
pub struct StepOutput {
    /// Pull impulses for the host to apply to its rigid bodies.
    pub impulses: Vec<ImpulseCommand>,
    /// How many input events named an actor id that no record carries; such
    /// events were dropped, and the host may log them.
    pub dropped_events: usize,
    /// Every actor holding a prop after the verb handlers ran, with the prop
    /// it holds.
    pub held: Vec<(u64, u64)>,
    /// The ghost record of the pipeline's intermediate stores, through which
    /// [`step`]'s contract chains the phase contracts. Erased at run time.
    pub trace: Ghost<PipelineTrace>,
}

/// Arithmetic bounds the step asks of the store, beyond [`wf_store`]: all
/// records well formed, poses and velocities within [`math::FIX_LIMIT`] and
/// configuration in range.
pub open spec fn step_ready(actors: Seq<Actor>, props: Seq<Prop>) -> bool {
    &&& (forall|i: int| 0 <= i < actors.len() ==> (#[trigger] actors[i]).wf())
    &&& (forall|i: int| 0 <= i < actors.len() ==> pull_ready(#[trigger] actors[i], props))
    &&& (forall|j: int| 0 <= j < props.len() ==> (#[trigger] props[j]).wf())
    &&& (forall|j: int| 0 <= j < props.len() ==> sim_ready(#[trigger] props[j]))
}

/// Everything of an actor the pickup core never writes: its identity, its
/// pose and its configuration.
pub open spec fn actor_frame(a1: Actor, a0: Actor) -> bool {
    a1.id == a0.id && a1.position == a0.position && a1.rotation == a0.rotation && a1.config
        == a0.config
}

/// Everything of a prop the pickup core never writes: its identity, its
/// pose and its body kind. In particular the core moves a held prop through
/// its velocities alone — it never teleports it.
pub open spec fn prop_frame(p1: Prop, p0: Prop) -> bool {
    p1.id == p0.id && p1.position == p0.position && p1.rotation == p0.rotation && p1.kind
        == p0.kind
}

/// One simulation step of the pickup core, run by the host's fixed-step
/// physics loop.
///
/// The pipeline is the order [`AvianPickupPlugin::build`] lays out: the
/// input classifier assigns verbs; the pull phase searches and either pulls
/// or hands the hold verb on; hold entry runs its one-shot setup; the shadow
/// controller drives every held prop; drop and throw leave holding; the
/// idle reset reverts stale pulls; and the cooldowns tick by `dt`
/// microseconds. The contract pins the outcome as exactly that composition:
/// the returned [`PipelineTrace`] chains each phase's own relation from the
/// entry store to the final one, every [`StepOutput`] field is fixed — the
/// dropped-event count by the classifier, the impulses by the pull phase
/// over the classified actors, the held pairs by the store after hold entry
/// — the store stays coherent, and the core writes only what is its to
/// write: states, verbs, cooldowns, velocities, masses and grab
/// bookkeeping, never a pose, an id or a configuration.
pub fn step(
    actors: &mut Vec<Actor>,
    props: &mut Vec<Prop>,
    events: &Vec<AvianPickupInput>,
    casts: &Vec<CastSet>,
    rotation_errors: &Vec<RotationError>,
    dt: u64,
) -> (out: StepOutput)
    requires
        wf_store(old(actors)@, old(props)@),
        step_ready(old(actors)@, old(props)@),
        forall|k: int|
            0 <= k < rotation_errors@.len() ==> (#[trigger] rotation_errors@[k].delta_angles)
                .bounded(2 * crate::math::FIX_LIMIT as int),
        1 <= dt <= MAX_STEP_MICROS,
    ensures
        final(actors).len() == old(actors).len(),
        final(props).len() == old(props).len(),
        wf_store(final(actors)@, final(props)@),
        forall|i: int|
            0 <= i < old(actors).len() ==> actor_frame(#[trigger] final(actors)[i], old(actors)[i]),
        forall|j: int|
            0 <= j < old(props).len() ==> prop_frame(#[trigger] final(props)[j], old(props)[j]),
        verbs_assigned(old(actors)@, events@, out.trace@.after_classifier),
        out.dropped_events as int == dropped_after(old(actors)@, events@, events@.len() as int),
        pull_applied(out.trace@.after_classifier, old(props)@, casts@, out.trace@.after_pull),
        out.impulses@ == impulses_after(
            out.trace@.after_classifier,
            old(props)@,
            casts@,
            old(actors).len() as int,
        ),
        hold_entry_applied(
            out.trace@.after_pull,
            old(props)@,
            out.trace@.after_hold_actors,
            out.trace@.after_hold_props,
        ),
        out.held@ == holding_pairs(out.trace@.after_hold_actors, old(actors).len() as int),
        simulate_applied(
            out.trace@.after_hold_props,
            rotation_errors@,
            dt,
            out.trace@.after_simulate,
        ),
        drop_applied(
            out.trace@.after_hold_actors,
            out.trace@.after_simulate,
            out.trace@.after_drop_actors,
            out.trace@.after_drop_props,
        ),
        throw_applied(
            out.trace@.after_drop_actors,
            out.trace@.after_drop_props,
            out.trace@.after_throw,
            final(props)@,
        ),
        flush_applied(out.trace@.after_throw, out.trace@.after_flush),
        tick_applied(out.trace@.after_flush, dt, final(actors)@),
{
    let ghost actors_in = actors@;
    let ghost props_in = props@;

    // input classifier: one verb per actor, at most
    let dropped_events = crate::input::set_verbs_according_to_input(actors, events);
    proof {
        lemma_wf_actors_same_holdings(actors_in, actors@, props@);
        assert(forall|i: int| 0 <= i < actors@.len() ==> (#[trigger] actors@[i]).wf());
        assert(forall|i: int| 0 <= i < actors@.len() ==> pull_ready(#[trigger] actors@[i], props@));
        assert(forall|i: int|
            0 <= i < actors@.len() ==> actor_frame(#[trigger] actors@[i], actors_in[i]));
    }

    // pull: search, then impulse or hold verb
    let ghost actors_v = actors@;
    let impulses = find_object(actors, props, casts);
    proof {
        lemma_wf_actors_same_holdings(actors_v, actors@, props@);
        assert forall|i: int|
            0 <= i < actors@.len() implies (#[trigger] actors@[i]).wf() && actor_frame(
            actors@[i],
            actors_in[i],
        ) by {
            assert(actors@[i] == crate::interaction::pull::pull_actor_after(
                actors_v[i],
                props@,
                casts@,
            ));
            assert(actor_frame(actors_v[i], actors_in[i]));
        }
    }

    // hold entry: one-shot setup
    let ghost actors_p = actors@;
    let ghost props_p = props@;
    on_hold(actors, props);
    proof {
        assert forall|j: int| 0 <= j < props@.len() implies sim_ready(#[trigger] props@[j]) by {
            assert(props_in[j].position.bounded(crate::math::FIX_LIMIT as int));
        }
        assert forall|i: int|
            0 <= i < actors@.len() implies actor_frame(#[trigger] actors@[i], actors_in[i]) by {
            assert(actor_frame(actors_p[i], actors_in[i]));
        }
        assert forall|j: int|
            0 <= j < props@.len() implies prop_frame(#[trigger] props@[j], props_in[j]) by {
            if props@[j] != props_p[j] {
                let k = choose|k: int|
                    0 <= k < actors_p.len() && (#[trigger] actors_p[k]).verb == Some(
                        crate::verb::Verb::Hold(props_p[j].id),
                    ) && props@[j] == crate::interaction::hold::on_hold::hold_setup_prop(
                        actors_p[k],
                        props_p[j],
                    );
            }
        }
    }

    // the hold observation: who holds what now
    let held_pairs = hold(actors);

    // the shadow controller drives every held prop
    let ghost actors_h = actors@;
    let ghost props_h = props@;
    grabcontroller_simulate(props, rotation_errors, dt);
    proof {
        assert forall|j: int|
            0 <= j < props@.len() implies (#[trigger] props@[j]).id == props_h[j].id
                && props@[j].grab.is_some() == props_h[j].grab.is_some()
                && props@[j].shadow.is_some() == props_h[j].shadow.is_some()
                && props@[j].non_pickup_mass.is_some() == props_h[j].non_pickup_mass.is_some()
                && props@[j].pre_pickup_rotation.is_some()
                == props_h[j].pre_pickup_rotation.is_some() by {
            if held(props_h[j]) && crate::interaction::hold::error_for(
                rotation_errors@,
                props_h[j].id,
            ).is_some() {
                assert(simulated_held(
                    props_h[j],
                    props@[j],
                    crate::interaction::hold::error_for(rotation_errors@, props_h[j].id).unwrap(),
                    dt,
                ));
            }
        }
        lemma_wf_props_same_shape(actors@, props_h, props@);
        assert forall|j: int|
            0 <= j < props@.len() implies prop_frame(#[trigger] props@[j], props_in[j]) by {
            if held(props_h[j]) && crate::interaction::hold::error_for(
                rotation_errors@,
                props_h[j].id,
            ).is_some() {
                assert(simulated_held(
                    props_h[j],
                    props@[j],
                    crate::interaction::hold::error_for(rotation_errors@, props_h[j].id).unwrap(),
                    dt,
                ));
            }
            assert(prop_frame(props_h[j], props_in[j]));
        }
    }

    // leave holding: drop, then throw
    let ghost actors_d = actors@;
    let ghost props_d = props@;
    crate::interaction::drop::drop(actors, props);
    proof {
        assert forall|i: int|
            0 <= i < actors@.len() implies actor_frame(#[trigger] actors@[i], actors_in[i]) by {
            assert(actor_frame(actors_d[i], actors_in[i]));
        }
        assert forall|j: int|
            0 <= j < props@.len() implies prop_frame(#[trigger] props@[j], props_in[j]) by {
            assert(prop_frame(props_d[j], props_in[j]));
        }
    }
    let ghost actors_w = actors@;
    let ghost props_w = props@;
    crate::interaction::throw::throw(actors, props);
    proof {
        assert forall|i: int|
            0 <= i < actors@.len() implies actor_frame(#[trigger] actors@[i], actors_in[i]) by {
            assert(actor_frame(actors_w[i], actors_in[i]));
        }
        assert forall|j: int|
            0 <= j < props@.len() implies prop_frame(#[trigger] props@[j], props_in[j]) by {
            assert(prop_frame(props_w[j], props_in[j]));
        }
    }

    // idle reset for stale pulls
    let ghost actors_t = actors@;
    flush_pulling_state(actors);
    proof {
        lemma_wf_actors_same_holdings(actors_t, actors@, props@);
        // the cooldown tick needs clamped timers: every handler left each
        // actor's cooldown untouched or freshly set
        assert(forall|i: int|
            0 <= i < actors@.len() ==> (#[trigger] actors@[i]).cooldown.wf());
        assert forall|i: int|
            0 <= i < actors@.len() implies actor_frame(#[trigger] actors@[i], actors_in[i]) by {
            assert(actor_frame(actors_t[i], actors_in[i]));
        }
    }

    // cooldowns tick last
    let ghost actors_f = actors@;
    crate::cooldown::tick(actors, dt);
    proof {
        lemma_wf_actors_same_holdings(actors_f, actors@, props@);
        assert forall|i: int|
            0 <= i < actors@.len() implies actor_frame(#[trigger] actors@[i], actors_in[i]) by {
            assert(actor_frame(actors_f[i], actors_in[i]));
        }
    }

    StepOutput {
        impulses,
        dropped_events,
        held: held_pairs,
        trace: Ghost(
            PipelineTrace {
                after_classifier: actors_v,
                after_pull: actors_p,
                after_hold_actors: actors_h,
                after_hold_props: props_h,
                after_simulate: props_d,
                after_drop_actors: actors_w,
                after_drop_props: props_w,
                after_throw: actors_t,
                after_flush: actors_f,
            },
        ),
    }
}

/// Set enum for the stages run by the pickup core, in the order
/// [`AvianPickupPlugin::build`] chains them. Use this to order host work
/// relative to the core's.
#[derive(Clone, Copy, Debug, PartialEq, Eq, Structural)]
pub enum AvianPickupSystem {
    /// Runs at the start of a step. Holds the input classifier.
    First,
    /// The verb handlers: pull, hold, drop and throw, in that order.
    HandleVerb,
    /// Reverts a stale pulling state to idle once its cooldown lapses.
    ResetIdle,
    /// Advances the cooldown timers.
    TickTimers,
    /// Runs at the end of a step. Empty by default.
    Last,
}

/// The order of the verb handlers inside [`AvianPickupSystem::HandleVerb`].
#[derive(Clone, Copy, Debug, PartialEq, Eq, Structural)]
pub enum HandleVerbSystem {
    /// The acquisition search and pull impulses.
    Pull,
    /// Hold entry and the shadow controller.
    Hold,
    /// Dropping the held prop.
    Drop,
    /// Throwing the held prop.
    Throw,
}

/// The individual systems of the pickup core.
#[derive(Clone, Copy, Debug, PartialEq, Eq, Structural)]
pub enum SystemId {
    /// [`input::set_verbs_according_to_input`].
    SetVerbs,
    /// [`interaction::pull::find_object`].
    FindObject,
    /// [`interaction::hold::on_hold::on_hold`].
    OnHold,
    /// [`interaction::hold::hold`].
    HoldObserve,
    /// [`interaction::hold::grabcontroller_simulate`].
    GrabSimulate,
    /// [`interaction::drop::drop`].
    DropHeld,
    /// [`interaction::throw::throw`].
    ThrowHeld,
    /// [`interaction::pull::flush_pulling_state`].
    FlushPulling,
    /// [`cooldown::tick`].
    TickCooldowns,
}

/// One registered system with the stage it runs in.
#[derive(Clone, Copy, Debug, PartialEq, Eq, Structural)]
pub struct SystemEntry {
    /// Which system.
    pub id: SystemId,
    /// The stage it runs in.
    pub set: AvianPickupSystem,
}

/// The list of systems a host runs once per step. Modules append their
/// systems through their `plugin` functions; a host runs them stage by
/// stage in the order of [`AvianPickupSystem`], ties in registration order.
/// [`step`] executes the same work in the same order.
pub struct Schedule {
    /// The registered systems.
    pub systems: Vec<SystemEntry>,
}

impl Schedule {
    /// An empty schedule.
    pub fn new() -> (s: Schedule)
        ensures
            s.systems@ == Seq::<SystemEntry>::empty(),
    {
        Schedule { systems: Vec::new() }
    }
}

/// The registered pipeline of the pickup core. Stage by stage it reads:
/// input classification first, then the verb handlers in their order —
/// pull, hold entry, the hold observation, the shadow controller, drop,
/// throw — then the idle reset, then the cooldown tick.
pub open spec fn canonical_pipeline() -> Seq<SystemEntry> {
    seq![
        SystemEntry { id: SystemId::SetVerbs, set: AvianPickupSystem::First },
        SystemEntry { id: SystemId::FindObject, set: AvianPickupSystem::HandleVerb },
        SystemEntry { id: SystemId::FlushPulling, set: AvianPickupSystem::ResetIdle },
        SystemEntry { id: SystemId::OnHold, set: AvianPickupSystem::HandleVerb },
        SystemEntry { id: SystemId::HoldObserve, set: AvianPickupSystem::HandleVerb },
        SystemEntry { id: SystemId::GrabSimulate, set: AvianPickupSystem::HandleVerb },
        SystemEntry { id: SystemId::DropHeld, set: AvianPickupSystem::HandleVerb },
        SystemEntry { id: SystemId::ThrowHeld, set: AvianPickupSystem::HandleVerb },
        SystemEntry { id: SystemId::TickCooldowns, set: AvianPickupSystem::TickTimers },
    ]
}

/// The pickup plugin: registers the whole pipeline with a host schedule.
/// Add it after the host's physics setup; the host then runs [`step`] (or
/// the registered systems one by one, in order) once per fixed step.
#[derive(Default)]
#[non_exhaustive]
pub struct AvianPickupPlugin;

impl AvianPickupPlugin {
    /// Register every system of the pickup core, in pipeline order.
    pub fn build(&self, schedule: &mut Schedule)
        ensures
            final(schedule).systems@ == old(schedule).systems@ + canonical_pipeline(),
    {
        crate::input::plugin(schedule);
        crate::interaction::pull::plugin(schedule);
        crate::interaction::hold::plugin(schedule);
        crate::interaction::drop::plugin(schedule);
        crate::interaction::throw::plugin(schedule);
        crate::cooldown::plugin(schedule);
        proof {
            assert(schedule.systems@ =~= old(schedule).systems@ + canonical_pipeline());
        }
    }
}

} // verus!
