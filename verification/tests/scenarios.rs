//! End-to-end scenarios of the pickup state machine, one simulation step at
//! a time.

use avian_pickup::actor::{Actor, AvianPickupActor, AvianPickupActorState};
use avian_pickup::cooldown::Cooldown;
use avian_pickup::input::{AvianPickupInput, AvianPickupInputKind};
use avian_pickup::interaction::hold::on_hold::on_hold;
use avian_pickup::interaction::hold::RotationError;
use avian_pickup::interaction::pull::find_in_trace::find_prop_in_trace;
use avian_pickup::interaction::pull::{Candidate, CastSet};
use avian_pickup::math::{QuatFix, Vec3Fix, SCALE};
use avian_pickup::prop::{Prop, RigidBodyKind};
use avian_pickup::step;
use avian_pickup::verb::Verb;

/// One world unit in fixed-point micro-units.
const U: i64 = SCALE as i64;

fn test_actor(id: u64) -> Actor {
    Actor {
        id,
        position: Vec3Fix { x: 0, y: 0, z: 0 },
        rotation: QuatFix { w: U, x: 0, y: 0, z: 0 },
        config: AvianPickupActor {
            trace_length: 3 * SCALE,
            pull_force: 100 * SCALE,
            mass_threshold: 35 * SCALE,
            pickup_mass: 2 * SCALE,
        },
        state: AvianPickupActorState::Idle,
        cooldown: Cooldown::new(),
        verb: None,
    }
}

fn test_prop(id: u64) -> Prop {
    Prop {
        id,
        position: Vec3Fix { x: 0, y: 0, z: -10 * U },
        rotation: QuatFix { w: U, x: 0, y: 0, z: 0 },
        linear_velocity: Vec3Fix { x: 0, y: 0, z: 0 },
        angular_velocity: Vec3Fix { x: 0, y: 0, z: 0 },
        mass: SCALE,
        kind: RigidBodyKind::Dynamic,
        non_pickup_mass: None,
        pre_pickup_rotation: None,
        shadow: None,
        grab: None,
    }
}

fn right_press(actor: u64) -> AvianPickupInput {
    AvianPickupInput { actor, kind: AvianPickupInputKind::JustPressedR }
}

/// A ray hit for actor 1 on prop 10 at the given time of impact, in world
/// units.
fn ray_cast(toi_units: u64) -> CastSet {
    CastSet {
        actor: 1,
        ray: Some(Candidate { entity: 10, toi: toi_units * SCALE }),
        shape: None,
    }
}

#[test]
fn close_hit_is_grabbed_and_starts_the_hold_cooldown() {
    let mut actors = vec![test_actor(1)];
    let mut props = vec![test_prop(10)];
    let events = vec![right_press(1)];
    let casts = vec![ray_cast(2)];
    let errors: Vec<RotationError> = Vec::new();
    let dt: u64 = 10_000;

    let out = step(&mut actors, &mut props, &events, &casts, &errors, dt);

    assert_eq!(actors[0].state, AvianPickupActorState::Holding(10));
    assert_eq!(actors[0].cooldown.right.duration_micros, 900_000);
    assert_eq!(actors[0].cooldown.right.elapsed_micros, dt);
    assert_eq!(props[0].mass, 2 * SCALE);
    assert_eq!(props[0].non_pickup_mass, Some(SCALE));
    assert!(props[0].grab.is_some());
    assert!(props[0].shadow.is_some());
    assert!(props[0].pre_pickup_rotation.is_some());
    assert!(out.impulses.is_empty());
    assert_eq!(out.held, vec![(1, 10)]);
}

#[test]
fn distant_hit_is_pulled_with_the_mass_adjusted_impulse() {
    let mut actors = vec![test_actor(1)];
    let mut props = vec![test_prop(10)];
    let events = vec![right_press(1)];
    let casts = vec![ray_cast(5)];
    let errors: Vec<RotationError> = Vec::new();
    let dt: u64 = 10_000;

    let out = step(&mut actors, &mut props, &events, &casts, &errors, dt);

    assert_eq!(actors[0].state, AvianPickupActorState::Pulling(10));
    assert_eq!(actors[0].cooldown.right.duration_micros, 100_000);
    assert_eq!(actors[0].cooldown.right.elapsed_micros, dt);
    // direction (0, 0, 1) toward the actor; magnitude
    // pull_force * (mass + 0.5) / 50 = 100 * 0.03 = 3 world units
    assert_eq!(out.impulses.len(), 1);
    assert_eq!(out.impulses[0].prop, 10);
    assert_eq!(out.impulses[0].impulse, Vec3Fix { x: 0, y: 0, z: 3 * U });
    // no grab happened
    assert!(props[0].grab.is_none());
    assert_eq!(props[0].mass, SCALE);
}

#[test]
fn right_press_while_holding_drops_the_prop() {
    let mut actors = vec![test_actor(1)];
    let mut props = vec![test_prop(10)];
    // enter holding first
    let grab_events = vec![right_press(1)];
    let casts = vec![ray_cast(2)];
    let errors: Vec<RotationError> = Vec::new();
    step(&mut actors, &mut props, &grab_events, &casts, &errors, 10_000);
    assert_eq!(actors[0].state, AvianPickupActorState::Holding(10));
    // wait out the hold cooldown, without input
    let none: Vec<AvianPickupInput> = Vec::new();
    let no_casts: Vec<CastSet> = Vec::new();
    step(&mut actors, &mut props, &none, &no_casts, &errors, 900_000);
    // now drop
    let out = step(&mut actors, &mut props, &grab_events, &no_casts, &errors, 10_000);

    assert_eq!(actors[0].state, AvianPickupActorState::Idle);
    assert!(props[0].grab.is_none());
    assert!(props[0].shadow.is_none());
    // the snapshot fields stay
    assert_eq!(props[0].non_pickup_mass, Some(SCALE));
    assert!(props[0].pre_pickup_rotation.is_some());
    // both cooldowns restart at half a second
    assert_eq!(actors[0].cooldown.left.duration_micros, 500_000);
    assert_eq!(actors[0].cooldown.right.duration_micros, 500_000);
    assert!(out.impulses.is_empty());
    // the hold observation runs before the drop handler, so within the
    // dropping step the actor still read as holding
    assert_eq!(out.held, vec![(1, 10)]);
}

#[test]
fn left_press_while_holding_throws_the_prop() {
    let mut actors = vec![test_actor(1)];
    let mut props = vec![test_prop(10)];
    let grab_events = vec![right_press(1)];
    let casts = vec![ray_cast(2)];
    let errors: Vec<RotationError> = Vec::new();
    step(&mut actors, &mut props, &grab_events, &casts, &errors, 10_000);
    assert_eq!(actors[0].state, AvianPickupActorState::Holding(10));

    let throw_events =
        vec![AvianPickupInput { actor: 1, kind: AvianPickupInputKind::JustPressedL }];
    let no_casts: Vec<CastSet> = Vec::new();
    step(&mut actors, &mut props, &throw_events, &no_casts, &errors, 10_000);

    assert_eq!(actors[0].state, AvianPickupActorState::Idle);
    assert!(props[0].grab.is_none());
    assert!(props[0].shadow.is_none());
}

#[test]
fn stale_pull_reverts_to_idle_exactly_when_the_cooldown_lapses() {
    let mut actors = vec![test_actor(1)];
    let mut props = vec![test_prop(10)];
    let events = vec![right_press(1)];
    let casts = vec![ray_cast(5)];
    let errors: Vec<RotationError> = Vec::new();
    let dt: u64 = 50_000;

    // the pull fires and sets the 0.1 s cooldown
    step(&mut actors, &mut props, &events, &casts, &errors, dt);
    assert_eq!(actors[0].state, AvianPickupActorState::Pulling(10));

    // no renewed pull input; the idle reset runs before the tick, so the
    // state survives while the cooldown has not fully lapsed
    let none: Vec<AvianPickupInput> = Vec::new();
    let no_casts: Vec<CastSet> = Vec::new();
    step(&mut actors, &mut props, &none, &no_casts, &errors, dt);
    assert_eq!(actors[0].state, AvianPickupActorState::Pulling(10));

    // third consecutive step: the cooldown reads finished and the state flips
    step(&mut actors, &mut props, &none, &no_casts, &errors, dt);
    assert_eq!(actors[0].state, AvianPickupActorState::Idle);
}

#[test]
fn ray_wins_over_shape_cast() {
    let ray = Some(Candidate { entity: 1, toi: 7 * SCALE });
    let shape = Some(Candidate { entity: 2, toi: SCALE });
    let chosen = find_prop_in_trace(ray, shape).unwrap();
    assert_eq!(chosen.entity, 1);
    assert_eq!(chosen.toi, 7 * SCALE);
    let fallback = find_prop_in_trace(None, shape).unwrap();
    assert_eq!(fallback.entity, 2);
    assert!(find_prop_in_trace(None, None).is_none());
}

#[test]
fn hold_setup_twice_applies_the_mass_swap_once() {
    let mut actors = vec![test_actor(1)];
    let mut props = vec![test_prop(10)];
    actors[0].verb = Some(Verb::Hold(10));
    on_hold(&mut actors, &mut props);
    assert_eq!(actors[0].state, AvianPickupActorState::Holding(10));
    let mass_after_first = props[0].mass;
    let snapshot_after_first = props[0].non_pickup_mass;
    assert_eq!(mass_after_first, 2 * SCALE);
    assert_eq!(snapshot_after_first, Some(SCALE));

    // a second setup without leaving holding
    actors[0].verb = Some(Verb::Hold(10));
    on_hold(&mut actors, &mut props);
    assert_eq!(props[0].mass, mass_after_first);
    assert_eq!(props[0].non_pickup_mass, snapshot_after_first);
}

#[test]
fn only_one_actor_can_hold_a_prop() {
    let mut actors = vec![test_actor(1), test_actor(2)];
    let mut props = vec![test_prop(10)];
    actors[0].verb = Some(Verb::Hold(10));
    actors[1].verb = Some(Verb::Hold(10));
    on_hold(&mut actors, &mut props);
    let first_holds = actors[0].state == AvianPickupActorState::Holding(10);
    let second_holds = actors[1].state == AvianPickupActorState::Holding(10);
    assert!(first_holds ^ second_holds);
}

#[test]
fn idle_actors_leave_no_ephemeral_components() {
    let mut actors = vec![test_actor(1)];
    let mut props = vec![test_prop(10)];
    let grab_events = vec![right_press(1)];
    let casts = vec![ray_cast(2)];
    let errors: Vec<RotationError> = Vec::new();
    step(&mut actors, &mut props, &grab_events, &casts, &errors, 10_000);
    let none: Vec<AvianPickupInput> = Vec::new();
    let no_casts: Vec<CastSet> = Vec::new();
    step(&mut actors, &mut props, &none, &no_casts, &errors, 900_000);
    step(&mut actors, &mut props, &grab_events, &no_casts, &errors, 10_000);
    // dropped: every actor idle, so no prop may carry grab bookkeeping
    assert!(actors.iter().all(|a| a.state == AvianPickupActorState::Idle));
    assert!(props.iter().all(|p| p.grab.is_none() && p.shadow.is_none()));
}

#[test]
fn ineligible_candidates_are_not_pulled() {
    // too heavy
    let mut actors = vec![test_actor(1)];
    let mut props = vec![test_prop(10)];
    props[0].mass = 35 * SCALE;
    let events = vec![right_press(1)];
    let casts = vec![ray_cast(2)];
    let errors: Vec<RotationError> = Vec::new();
    let out = step(&mut actors, &mut props, &events, &casts, &errors, 10_000);
    assert_eq!(actors[0].state, AvianPickupActorState::Idle);
    assert!(out.impulses.is_empty());

    // not a dynamic body
    let mut actors = vec![test_actor(1)];
    let mut props = vec![test_prop(10)];
    props[0].kind = RigidBodyKind::Static;
    let out = step(&mut actors, &mut props, &events, &casts, &errors, 10_000);
    assert_eq!(actors[0].state, AvianPickupActorState::Idle);
    assert!(out.impulses.is_empty());
}

#[test]
fn a_hit_exactly_at_the_trace_length_is_grabbed_not_pulled() {
    let mut actors = vec![test_actor(1)];
    let mut props = vec![test_prop(10)];
    let events = vec![right_press(1)];
    // time of impact equal to the trace length: the grab branch wins
    let casts = vec![ray_cast(3)];
    let errors: Vec<RotationError> = Vec::new();
    let out = step(&mut actors, &mut props, &events, &casts, &errors, 10_000);
    assert_eq!(actors[0].state, AvianPickupActorState::Holding(10));
    assert!(out.impulses.is_empty());
}

#[test]
fn renewed_pull_input_keeps_the_pulling_state_and_target() {
    let mut actors = vec![test_actor(1)];
    let mut props = vec![test_prop(10), test_prop(11)];
    props[1].position = Vec3Fix { x: 0, y: 0, z: -20 * U };
    let events = vec![AvianPickupInput { actor: 1, kind: AvianPickupInputKind::PressedR }];
    let casts = vec![ray_cast(5)];
    let errors: Vec<RotationError> = Vec::new();
    let dt: u64 = 100_000;

    step(&mut actors, &mut props, &events, &casts, &errors, dt);
    assert_eq!(actors[0].state, AvianPickupActorState::Pulling(10));

    // the cooldown lapsed exactly; a renewed pull now hits another prop,
    // but an in-progress pull target is not overwritten
    let other_cast = vec![CastSet {
        actor: 1,
        ray: Some(Candidate { entity: 11, toi: 5 * SCALE }),
        shape: None,
    }];
    let out = step(&mut actors, &mut props, &events, &other_cast, &errors, dt);
    assert_eq!(actors[0].state, AvianPickupActorState::Pulling(10));
    assert_eq!(out.impulses.len(), 1);
    assert_eq!(out.impulses[0].prop, 11);
}

#[test]
fn events_for_unknown_actors_are_dropped_and_counted() {
    let mut actors = vec![test_actor(1)];
    let mut props = vec![test_prop(10)];
    let events = vec![right_press(99), right_press(1)];
    let casts = vec![ray_cast(2)];
    let errors: Vec<RotationError> = Vec::new();
    let out = step(&mut actors, &mut props, &events, &casts, &errors, 10_000);
    // the unknown actor is reported, the known one is still served
    assert_eq!(out.dropped_events, 1);
    assert_eq!(actors[0].state, AvianPickupActorState::Holding(10));
}
