//! The input classifier, the hold loop and the registered pipeline.

use avian_pickup::actor::{Actor, AvianPickupActor, AvianPickupActorState};
use avian_pickup::cooldown::{Cooldown, Timer};
use avian_pickup::input::{
    set_verbs_according_to_input, verb_for_input, AvianPickupInput, AvianPickupInputKind,
};
use avian_pickup::interaction::hold::{grabcontroller_simulate, hold, RotationError};
use avian_pickup::interaction::pull::adjust_impulse_for_mass;
use avian_pickup::math::{quat_mul, QuatFix, Vec3Fix, SCALE};
use avian_pickup::prop::{GrabParams, Prop, RigidBodyKind, ShadowParams};
use avian_pickup::verb::Verb;
use avian_pickup::{
    AvianPickupPlugin, AvianPickupSystem, Schedule, SystemId,
};

/// One world unit in fixed-point micro-units.
const U: i64 = SCALE as i64;

fn idle_actor(id: u64) -> Actor {
    Actor {
        id,
        position: Vec3Fix { x: 0, y: 0, z: 0 },
        rotation: QuatFix { w: U, x: 0, y: 0, z: 0 },
        config: AvianPickupActor {
            trace_length: 3 * SCALE,
            pull_force: 100 * SCALE,
            mass_threshold: 35 * SCALE,
            pickup_mass: 2 * SCALE,
        },
        state: AvianPickupActorState::Idle,
        cooldown: Cooldown::new(),
        verb: None,
    }
}

#[test]
fn left_press_maps_to_throw_with_the_held_prop() {
    let ready = Cooldown::new();
    let v = verb_for_input(
        AvianPickupInputKind::JustPressedL,
        AvianPickupActorState::Holding(7),
        &ready,
    );
    assert!(matches!(v, Some(Verb::Throw(Some(7)))));
    let v = verb_for_input(AvianPickupInputKind::JustPressedL, AvianPickupActorState::Idle, &ready);
    assert!(matches!(v, Some(Verb::Throw(None))));
}

#[test]
fn gated_buttons_decide_nothing() {
    let mut waiting = Cooldown::new();
    waiting.drop_held();
    let v = verb_for_input(
        AvianPickupInputKind::JustPressedL,
        AvianPickupActorState::Idle,
        &waiting,
    );
    assert!(v.is_none());
    let v = verb_for_input(
        AvianPickupInputKind::JustPressedR,
        AvianPickupActorState::Idle,
        &waiting,
    );
    assert!(v.is_none());
    let v = verb_for_input(
        AvianPickupInputKind::PressedR,
        AvianPickupActorState::Holding(7),
        &Cooldown::new(),
    );
    assert!(v.is_none());
}

#[test]
fn right_press_maps_by_state() {
    let ready = Cooldown::new();
    let v = verb_for_input(
        AvianPickupInputKind::JustPressedR,
        AvianPickupActorState::Holding(7),
        &ready,
    );
    assert!(matches!(v, Some(Verb::Drop(7))));
    let v =
        verb_for_input(AvianPickupInputKind::PressedR, AvianPickupActorState::Pulling(7), &ready);
    assert!(matches!(v, Some(Verb::Pull)));
}

#[test]
fn the_last_decision_wins_within_a_step() {
    let mut actors = vec![idle_actor(1)];
    let events = vec![
        AvianPickupInput { actor: 1, kind: AvianPickupInputKind::JustPressedR },
        AvianPickupInput { actor: 1, kind: AvianPickupInputKind::JustPressedL },
    ];
    let dropped = set_verbs_according_to_input(&mut actors, &events);
    assert_eq!(dropped, 0);
    assert!(matches!(actors[0].verb, Some(Verb::Throw(None))));
}

#[test]
fn intentions_never_carry_over() {
    let mut actors = vec![idle_actor(1)];
    actors[0].verb = Some(Verb::Pull);
    let events: Vec<AvianPickupInput> = Vec::new();
    set_verbs_according_to_input(&mut actors, &events);
    assert!(actors[0].verb.is_none());
}

#[test]
fn an_event_that_decides_nothing_keeps_the_previous_decision() {
    // with the left button gated, a later left press decides nothing and the
    // earlier pull decision survives
    let mut actors = vec![idle_actor(1)];
    actors[0].cooldown.left = Timer::one_shot(500_000);
    let events = vec![
        AvianPickupInput { actor: 1, kind: AvianPickupInputKind::PressedR },
        AvianPickupInput { actor: 1, kind: AvianPickupInputKind::JustPressedL },
    ];
    set_verbs_according_to_input(&mut actors, &events);
    assert!(matches!(actors[0].verb, Some(Verb::Pull)));
}

#[test]
fn the_hold_observation_lists_holding_actors() {
    let mut actors = vec![idle_actor(1), idle_actor(2), idle_actor(3)];
    actors[0].state = AvianPickupActorState::Holding(10);
    actors[2].state = AvianPickupActorState::Pulling(11);
    let held = hold(&actors);
    assert_eq!(held, vec![(1, 10)]);
}

#[test]
fn the_shadow_controller_accelerates_a_held_prop_toward_its_target() {
    let position = Vec3Fix { x: 0, y: 0, z: 0 };
    let mut props = vec![Prop {
        id: 10,
        position,
        rotation: QuatFix { w: U, x: 0, y: 0, z: 0 },
        linear_velocity: Vec3Fix { x: 0, y: 0, z: 0 },
        angular_velocity: Vec3Fix { x: 0, y: 0, z: 0 },
        mass: 2 * SCALE,
        kind: RigidBodyKind::Dynamic,
        non_pickup_mass: Some(SCALE),
        pre_pickup_rotation: Some(QuatFix { w: U, x: 0, y: 0, z: 0 }),
        shadow: Some(ShadowParams {
            target_position: Vec3Fix { x: U, y: 0, z: 0 },
            target_rotation: QuatFix { w: U, x: 0, y: 0, z: 0 },
            max_angular: 360 * SCALE,
            max_damp_angular: 720 * SCALE,
            max_speed: 35 * SCALE,
            max_damp_speed: 70 * SCALE,
        }),
        grab: Some(GrabParams { contact_amount: 0, time_to_arrive: 0, error_time: 0 }),
    }];
    let errors = vec![RotationError { prop: 10, delta_angles: Vec3Fix { x: 0, y: 0, z: 0 } }];
    let dt: u64 = 500_000;

    grabcontroller_simulate(&mut props, &errors, dt);

    // one world unit of error covered in full over half a second: the
    // fraction is one, the per-second scaling two, so the velocity becomes
    // two world units per second, well under the authority cap
    assert_eq!(props[0].linear_velocity, Vec3Fix { x: 2 * U, y: 0, z: 0 });
    assert_eq!(props[0].angular_velocity, Vec3Fix { x: 0, y: 0, z: 0 });
    let grab = props[0].grab.unwrap();
    // the contact ramp is complete after half a second
    assert_eq!(grab.contact_amount, SCALE);
    assert_eq!(grab.time_to_arrive, 0);
    assert_eq!(grab.error_time, dt);
    // the prop itself is not teleported
    assert_eq!(props[0].position, position);
}

#[test]
fn a_held_prop_without_a_rotation_error_is_left_alone() {
    let mut props = vec![Prop {
        id: 10,
        position: Vec3Fix { x: 0, y: 0, z: 0 },
        rotation: QuatFix { w: U, x: 0, y: 0, z: 0 },
        linear_velocity: Vec3Fix { x: 5 * U, y: 0, z: 0 },
        angular_velocity: Vec3Fix { x: 0, y: 0, z: 0 },
        mass: 2 * SCALE,
        kind: RigidBodyKind::Dynamic,
        non_pickup_mass: Some(SCALE),
        pre_pickup_rotation: Some(QuatFix { w: U, x: 0, y: 0, z: 0 }),
        shadow: Some(ShadowParams {
            target_position: Vec3Fix { x: U, y: 0, z: 0 },
            target_rotation: QuatFix { w: U, x: 0, y: 0, z: 0 },
            max_angular: 360 * SCALE,
            max_damp_angular: 720 * SCALE,
            max_speed: 35 * SCALE,
            max_damp_speed: 70 * SCALE,
        }),
        grab: Some(GrabParams { contact_amount: 0, time_to_arrive: 0, error_time: 0 }),
    }];
    let errors: Vec<RotationError> = Vec::new();
    grabcontroller_simulate(&mut props, &errors, 500_000);
    assert_eq!(props[0].linear_velocity, Vec3Fix { x: 5 * U, y: 0, z: 0 });
    assert_eq!(props[0].grab.unwrap().error_time, 0);
}

#[test]
fn mass_adjustment_follows_the_classic_formula() {
    // (1 + 0.5) / 50 = 0.03
    assert_eq!(adjust_impulse_for_mass(SCALE), 30_000);
    // (0 + 0.5) / 50 = 0.01
    assert_eq!(adjust_impulse_for_mass(0), 10_000);
    // at and above 50 the factor is one
    assert_eq!(adjust_impulse_for_mass(50 * SCALE), SCALE);
    assert_eq!(adjust_impulse_for_mass(100 * SCALE), SCALE);
    // just below the threshold the classic formula peaks slightly above one
    assert_eq!(adjust_impulse_for_mass(50 * SCALE - 1), 1_009_999);
}

#[test]
fn a_far_arrival_time_skips_the_velocity_update() {
    // with a very long time to arrive, the fraction covered by one short
    // step floors to zero: the clock still counts down, the velocities stay
    let mut props = vec![Prop {
        id: 10,
        position: Vec3Fix { x: 0, y: 0, z: 0 },
        rotation: QuatFix { w: U, x: 0, y: 0, z: 0 },
        linear_velocity: Vec3Fix { x: 3 * U, y: 0, z: 0 },
        angular_velocity: Vec3Fix { x: 0, y: 0, z: 0 },
        mass: 2 * SCALE,
        kind: RigidBodyKind::Dynamic,
        non_pickup_mass: Some(SCALE),
        pre_pickup_rotation: Some(QuatFix { w: U, x: 0, y: 0, z: 0 }),
        shadow: Some(ShadowParams {
            target_position: Vec3Fix { x: U, y: 0, z: 0 },
            target_rotation: QuatFix { w: U, x: 0, y: 0, z: 0 },
            max_angular: 360 * SCALE,
            max_damp_angular: 720 * SCALE,
            max_speed: 35 * SCALE,
            max_damp_speed: 70 * SCALE,
        }),
        grab: Some(GrabParams {
            contact_amount: 0,
            time_to_arrive: 30_000_000_000,
            error_time: 0,
        }),
    }];
    let errors = vec![RotationError { prop: 10, delta_angles: Vec3Fix { x: 0, y: 0, z: 0 } }];
    let dt: u64 = 10_000;
    grabcontroller_simulate(&mut props, &errors, dt);
    assert_eq!(props[0].linear_velocity, Vec3Fix { x: 3 * U, y: 0, z: 0 });
    assert_eq!(props[0].grab.unwrap().time_to_arrive, 30_000_000_000 - dt);
}

#[test]
fn quaternion_conjugate_product_recovers_a_relative_rotation() {
    // a quarter turn around z composed with its inverse is the identity
    let half_sqrt2: i64 = 707_107;
    let q = QuatFix { w: half_sqrt2, x: 0, y: 0, z: half_sqrt2 };
    let local = quat_mul(q.conj(), q);
    // fixed-point rounding keeps the result within a unit of the identity
    assert!((local.w - U).abs() <= 1);
    assert_eq!(local.x, 0);
    assert_eq!(local.y, 0);
    assert!(local.z.abs() <= 1);
}

#[test]
fn the_plugin_registers_the_whole_pipeline_in_order() {
    let mut schedule = Schedule::new();
    AvianPickupPlugin::default().build(&mut schedule);
    let ids: Vec<SystemId> = schedule.systems.iter().map(|e| e.id).collect();
    assert_eq!(
        ids,
        vec![
            SystemId::SetVerbs,
            SystemId::FindObject,
            SystemId::FlushPulling,
            SystemId::OnHold,
            SystemId::HoldObserve,
            SystemId::GrabSimulate,
            SystemId::DropHeld,
            SystemId::ThrowHeld,
            SystemId::TickCooldowns,
        ]
    );
    // stage by stage, the order reads: input, verb handlers, reset, tick
    assert_eq!(schedule.systems[0].set, AvianPickupSystem::First);
    assert_eq!(schedule.systems[8].set, AvianPickupSystem::TickTimers);
}
