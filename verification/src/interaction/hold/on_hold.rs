//! One-shot setup when an actor enters holding: record the prop's rotation
//! in actor-local space, snapshot its mass and swap in the pickup mass,
//! attach the shadow-controller parameters, and reset the grab bookkeeping.

use vstd::prelude::*;

use crate::actor::{Actor, AvianPickupActorState};
use crate::math::{quat_conj_spec, quat_mul, quat_mul_of, QuatFix, SCALE};
use crate::prop::{GrabParams, Prop, ShadowParams};
use crate::verb::Verb;
use crate::{has_grab_components, holder_of, holding_same, wf_store};

verus! {

/// Default linear authority of the shadow controller while holding.
pub const DEFAULT_MAX_SPEED: u64 = 35_000_000;

/// Default linear damping cap of the shadow controller while holding.
pub const DEFAULT_MAX_DAMP_SPEED: u64 = 70_000_000;

/// Default angular authority of the shadow controller while holding.
pub const DEFAULT_MAX_ANGULAR: u64 = 360_000_000;

/// Default angular damping cap of the shadow controller while holding.
pub const DEFAULT_MAX_DAMP_ANGULAR: u64 = 720_000_000;

/// The prop right after a fresh grab by `a`: mass snapshotted and swapped
/// for the actor's pickup mass, the rotation offset recorded in actor-local
/// space, shadow parameters targeting the current pose, and the grab
/// bookkeeping reset.
pub open spec fn held_prop_after(a: Actor, p: Prop) -> Prop {
    Prop {
        mass: a.config.pickup_mass,
        non_pickup_mass: Some(p.mass),
        pre_pickup_rotation: Some(quat_mul_of(quat_conj_spec(a.rotation), p.rotation)),
        shadow: Some(
            ShadowParams {
                target_position: p.position,
                target_rotation: p.rotation,
                max_angular: DEFAULT_MAX_ANGULAR,
                max_damp_angular: DEFAULT_MAX_DAMP_ANGULAR,
                max_speed: DEFAULT_MAX_SPEED,
                max_damp_speed: DEFAULT_MAX_DAMP_SPEED,
            },
        ),
        grab: Some(GrabParams { contact_amount: 0u64, time_to_arrive: 0u64, error_time: 0u64 }),
        ..p
    }
}

/// What hold setup does to the prop: the one-shot work of
/// [`held_prop_after`] when entering holding afresh, and nothing when the
/// grab bookkeeping is already attached.
pub open spec fn hold_setup_prop(a: Actor, p: Prop) -> Prop {
    if p.grab.is_some() {
        p
    } else {
        held_prop_after(a, p)
    }
}

/// Idempotence of hold setup: invoking it twice without leaving holding is
/// the same as invoking it once — in particular the pickup-mass swap is not
/// applied twice, so the mass after the second call equals the mass after
/// the first.
pub proof fn lemma_hold_setup_idempotent(a: Actor, p: Prop)
    ensures
        hold_setup_prop(a, hold_setup_prop(a, p)) == hold_setup_prop(a, p),
        hold_setup_prop(a, hold_setup_prop(a, p)).mass == hold_setup_prop(a, p).mass,
{
}

/// A rotation expressed in an actor's local space: the actor's inverse
/// rotation composed with the world rotation.
pub fn prop_rotation_to_actor_space(rot: QuatFix, actor_rotation: QuatFix) -> (local: QuatFix)
    requires
        rot.bounded(4 * SCALE),
        actor_rotation.bounded(4 * SCALE),
    ensures
        local == quat_mul_of(quat_conj_spec(actor_rotation), rot),
{
    let inverse_rotation = actor_rotation.conj();
    proof {
        assert(inverse_rotation == quat_conj_spec(actor_rotation));
    }
    quat_mul(inverse_rotation, rot)
}

/// Hold setup for one prop, as executable code.
fn hold_setup(a: &Actor, p: Prop) -> (q: Prop)
    requires
        a.rotation.bounded(4 * SCALE),
        p.rotation.bounded(4 * SCALE),
    ensures
        q == hold_setup_prop(*a, p),
{
    if p.grab.is_some() {
        p
    } else {
        let local = prop_rotation_to_actor_space(p.rotation, a.rotation);
        Prop {
            id: p.id,
            position: p.position,
            rotation: p.rotation,
            linear_velocity: p.linear_velocity,
            angular_velocity: p.angular_velocity,
            mass: a.config.pickup_mass,
            kind: p.kind,
            non_pickup_mass: Some(p.mass),
            pre_pickup_rotation: Some(local),
            shadow: Some(
                ShadowParams {
                    target_position: p.position,
                    target_rotation: p.rotation,
                    max_angular: DEFAULT_MAX_ANGULAR,
                    max_damp_angular: DEFAULT_MAX_DAMP_ANGULAR,
                    max_speed: DEFAULT_MAX_SPEED,
                    max_damp_speed: DEFAULT_MAX_DAMP_SPEED,
                },
            ),
            grab: Some(GrabParams { contact_amount: 0, time_to_arrive: 0, error_time: 0 }),
        }
    }
}

/// Some actor other than `me` is holding the prop with id `pid`.
fn other_holder_exists(actors: &Vec<Actor>, pid: u64, me: usize) -> (r: bool)
    ensures
        r == exists|k: int|
            0 <= k < actors.len() && k != me && (#[trigger] actors@[k]).state
                == AvianPickupActorState::Holding(pid),
{
    let n = actors.len();
    let mut k: usize = 0;
    while k < n
        invariant
            n == actors.len(),
            0 <= k <= n,
            forall|m: int|
                0 <= m < k && m != me ==> (#[trigger] actors@[m]).state
                    != AvianPickupActorState::Holding(pid),
        decreases n - k,
    {
        if k != me {
            match actors[k].state {
                AvianPickupActorState::Holding(q) => {
                    if q == pid {
                        return true;
                    }
                },
                _ => {},
            }
        }
        k = k + 1;
    }
    false
}

/// The conditions under which the hold verb is guaranteed to take effect
/// for actor `i`: the verb names a prop that resolves, nobody holds that
/// prop, the actor itself is not holding anything, and no other actor
/// competes for the same prop this step.
pub open spec fn hold_enter_ok(actors: Seq<Actor>, props: Seq<Prop>, i: int) -> bool {
    let a = actors[i];
    &&& 0 <= i < actors.len()
    &&& a.verb matches Some(Verb::Hold(pid))
    &&& (exists|j: int| 0 <= j < props.len() && (#[trigger] props[j]).id == a.verb.unwrap()->Hold_0)
    &&& (forall|k: int|
        0 <= k < actors.len() ==> (#[trigger] actors[k]).state != AvianPickupActorState::Holding(
            a.verb.unwrap()->Hold_0,
        ))
    &&& !(a.state matches AvianPickupActorState::Holding(_))
    &&& (forall|k: int|
        0 <= k < actors.len() && k != i ==> (#[trigger] actors[k]).verb != Some(
            Verb::Hold(a.verb.unwrap()->Hold_0),
        ))
}

/// What the hold-entry pass does to the store. An actor changes only by
/// taking the holding state its hold verb names; a prop changes only by the
/// one-shot setup of some actor whose hold verb names it; and wherever
/// [`hold_enter_ok`] grants entry, the transition and the setup are
/// guaranteed to have happened.
pub open spec fn hold_entry_applied(
    actors0: Seq<Actor>,
    props0: Seq<Prop>,
    actors1: Seq<Actor>,
    props1: Seq<Prop>,
) -> bool {
    &&& actors1.len() == actors0.len()
    &&& props1.len() == props0.len()
    &&& (forall|i: int|
        0 <= i < actors0.len() ==> #[trigger] actors1[i] == actors0[i] || (
        actors0[i].verb matches Some(Verb::Hold(pid)) && actors1[i] == (Actor {
            state: AvianPickupActorState::Holding(pid),
            ..actors0[i]
        })))
    &&& (forall|j: int|
        0 <= j < props0.len() ==> #[trigger] props1[j] == props0[j] || (
        exists|i: int|
            0 <= i < actors0.len() && (#[trigger] actors0[i]).verb == Some(
                Verb::Hold(props0[j].id),
            ) && props1[j] == hold_setup_prop(actors0[i], props0[j])))
    &&& (forall|i: int|
        hold_enter_ok(actors0, props0, i) ==> (#[trigger] actors1[i]).state
            == AvianPickupActorState::Holding(actors0[i].verb.unwrap()->Hold_0) && (
        forall|j: int|
            0 <= j < props0.len() && (#[trigger] props0[j]).id == actors0[i].verb.unwrap()->Hold_0
                ==> props1[j] == hold_setup_prop(actors0[i], props0[j])))
}

/// The hold-entry pass. For every actor whose verb is hold, defensively
/// re-resolve the prop and make sure no one else holds it, then transition
/// the actor to holding and run the one-shot setup on the prop — unless the
/// grab bookkeeping is already attached, in which case the setup is skipped
/// and no second mass swap happens.
pub fn on_hold(actors: &mut Vec<Actor>, props: &mut Vec<Prop>)
    requires
        wf_store(old(actors)@, old(props)@),
        forall|i: int| 0 <= i < old(actors).len() ==> (#[trigger] old(actors)[i]).wf(),
        forall|j: int| 0 <= j < old(props).len() ==> (#[trigger] old(props)[j]).wf(),
    ensures
        wf_store(final(actors)@, final(props)@),
        forall|i: int| 0 <= i < old(actors).len() ==> (#[trigger] final(actors)[i]).wf(),
        forall|j: int| 0 <= j < old(props).len() ==> (#[trigger] final(props)[j]).wf(),
        hold_entry_applied(old(actors)@, old(props)@, final(actors)@, final(props)@),
{
    let n = actors.len();
    let mut i: usize = 0;
    while i < n
        invariant
            n == old(actors).len(),
            actors.len() == n,
            props.len() == old(props).len(),
            0 <= i <= n,
            wf_store(actors@, props@),
            forall|k: int| 0 <= k < n ==> (#[trigger] old(actors)[k]).wf(),
            forall|j: int| 0 <= j < old(props).len() ==> (#[trigger] old(props)[j]).wf(),
            forall|k: int| 0 <= k < n ==> (#[trigger] actors[k]).wf(),
            forall|j: int| 0 <= j < props.len() ==> (#[trigger] props[j]).wf(),
            wf_store(old(actors)@, old(props)@),
            forall|k: int| i <= k < n ==> #[trigger] actors[k] == old(actors)[k],
            forall|k: int|
                0 <= k < i ==> #[trigger] actors[k] == old(actors)[k] || (
                old(actors)[k].verb matches Some(Verb::Hold(pid)) && actors[k] == (Actor {
                    state: AvianPickupActorState::Holding(pid),
                    ..old(actors)[k]
                })),
            forall|j: int|
                0 <= j < old(props).len() ==> #[trigger] props[j] == old(props)[j] || (
                exists|k: int|
                    0 <= k < i && (#[trigger] old(actors)[k]).verb == Some(
                        Verb::Hold(old(props)[j].id),
                    ) && props[j] == hold_setup_prop(old(actors)[k], old(props)[j])),
            forall|k: int|
                0 <= k < i && hold_enter_ok(old(actors)@, old(props)@, k) ==> (
                #[trigger] actors[k]).state == AvianPickupActorState::Holding(
                    old(actors)[k].verb.unwrap()->Hold_0,
                ) && (forall|j: int|
                    0 <= j < old(props).len() && (#[trigger] old(props)[j]).id == old(
                        actors,
                    )[k].verb.unwrap()->Hold_0 ==> props[j] == hold_setup_prop(
                        old(actors)[k],
                        old(props)[j],
                    )),
        decreases n - i,
    {
        let ghost pre_actors = actors@;
        let ghost pre_props = props@;
        let ghost enter_ok = hold_enter_ok(old(actors)@, old(props)@, i as int);
        let a = actors[i];
        match a.verb {
            Some(Verb::Hold(pid)) => {
                let own_holding_other = match a.state {
                    AvianPickupActorState::Holding(q) => q != pid,
                    _ => false,
                };
                if !own_holding_other {
                    match crate::interaction::pull::find_prop(props, pid) {
                        Some(j) => {
                            if !other_holder_exists(actors, pid, i) {
                                proof {
                                    if enter_ok {
                                        // nobody set this prop up before this
                                        // iteration: only a competing hold verb
                                        // could have, and there is none
                                        if props@[j as int] != old(props)[j as int] {
                                            let k = choose|k: int|
                                                0 <= k < i && (#[trigger] old(actors)[k]).verb
                                                    == Some(Verb::Hold(old(props)[j as int].id))
                                                    && props@[j as int] == hold_setup_prop(
                                                    old(actors)[k],
                                                    old(props)[j as int],
                                                );
                                            assert(false);
                                        }
                                    }
                                }
                                let ghost actors0 = actors@;
                                let ghost props0 = props@;
                                let mut a2 = a;
                                a2.state = AvianPickupActorState::Holding(pid);
                                actors.set(i, a2);
                                let q = hold_setup(&a, props[j]);
                                props.set(j, q);
                                proof {
                                    lemma_on_hold_step(
                                        actors0,
                                        props0,
                                        actors@,
                                        props@,
                                        i as int,
                                        j as int,
                                        pid,
                                    );
                                    if enter_ok {
                                        assert forall|m: int|
                                            0 <= m < old(props).len() && (#[trigger] old(
                                                props,
                                            )[m]).id == pid implies props@[m]
                                            == hold_setup_prop(
                                            old(actors)[i as int],
                                            old(props)[m],
                                        ) by {
                                            assert(props0[m].id == old(props)[m].id);
                                            assert(props0[j as int].id == old(
                                                props,
                                            )[j as int].id);
                                            if m != j as int {
                                                assert(old(props)[m].id != old(
                                                    props,
                                                )[j as int].id);
                                            }
                                        }
                                    }
                                }
                            } else {
                                proof {
                                    if enter_ok {
                                        let k = choose|k: int|
                                            0 <= k < actors@.len() && k != i as int && (
                                            #[trigger] actors@[k]).state
                                                == AvianPickupActorState::Holding(pid);
                                        if actors@[k] != old(actors)[k] {
                                            assert(old(actors)[k].verb matches Some(
                                                Verb::Hold(_),
                                            ));
                                        }
                                        assert(false);
                                    }
                                }
                            }
                        },
                        None => {
                            proof {
                                if enter_ok {
                                    crate::interaction::pull::lemma_prop_with_none(props@, pid);
                                    let j = choose|j: int|
                                        0 <= j < old(props).len() && (#[trigger] old(
                                            props,
                                        )[j]).id == pid;
                                    assert(props@[j].id == old(props)[j].id);
                                    assert(false);
                                }
                            }
                        },
                    }
                } else {
                    proof {
                        assert(!enter_ok);
                    }
                }
            },
            _ => {
                proof {
                    assert(!enter_ok);
                }
            },
        }
        proof {
            assert forall|k: int|
                0 <= k < i as int + 1 && hold_enter_ok(old(actors)@, old(props)@, k) implies (
            #[trigger] actors@[k]).state == AvianPickupActorState::Holding(
                old(actors)[k].verb.unwrap()->Hold_0,
            ) && (forall|m: int|
                0 <= m < old(props).len() && (#[trigger] old(props)[m]).id == old(
                    actors,
                )[k].verb.unwrap()->Hold_0 ==> props@[m] == hold_setup_prop(
                    old(actors)[k],
                    old(props)[m],
                )) by {
                if k < i as int {
                    let pidk = old(actors)[k].verb.unwrap()->Hold_0;
                    assert(pre_actors[k].state == AvianPickupActorState::Holding(pidk));
                    assert(actors@[k] == pre_actors[k]);
                    assert forall|m: int|
                        0 <= m < old(props).len() && (#[trigger] old(props)[m]).id
                            == pidk implies props@[m] == hold_setup_prop(
                        old(actors)[k],
                        old(props)[m],
                    ) by {
                        assert(pre_props[m] == hold_setup_prop(old(actors)[k], old(props)[m]));
                        if props@[m] != pre_props[m] {
                            // this iteration only set up the prop its own hold
                            // verb names, which cannot be actor k's target
                            assert(old(actors)[i as int].verb == Some(Verb::Hold(pidk)));
                            assert(false);
                        }
                    }
                }
            }
        }
        i = i + 1;
    }
}

/// One hold entry keeps the store coherent: transitioning actor `i` to
/// holding `pid` while running the setup on the matching prop `j` preserves
/// [`wf_store`], provided nobody else held `pid`.
proof fn lemma_on_hold_step(
    actors0: Seq<Actor>,
    props0: Seq<Prop>,
    actors1: Seq<Actor>,
    props1: Seq<Prop>,
    i: int,
    j: int,
    pid: u64,
)
    requires
        wf_store(actors0, props0),
        0 <= i < actors0.len(),
        0 <= j < props0.len(),
        props0[j].id == pid,
        !(actors0[i].state matches AvianPickupActorState::Holding(_)) || actors0[i].state
            == AvianPickupActorState::Holding(pid),
        forall|k: int|
            0 <= k < actors0.len() && k != i ==> (#[trigger] actors0[k]).state
                != AvianPickupActorState::Holding(pid),
        actors1 == actors0.update(
            i,
            Actor { state: AvianPickupActorState::Holding(pid), ..actors0[i] },
        ),
        props1 == props0.update(j, hold_setup_prop(actors0[i], props0[j])),
    ensures
        wf_store(actors1, props1),
{
    assert(forall|k: int|
        0 <= k < actors1.len() && k != i ==> actors1[k] == #[trigger] actors0[k]);
    assert(forall|m: int| 0 <= m < props1.len() && m != j ==> props1[m] == #[trigger] props0[m]);
    // unique ids are untouched
    assert forall|x: int, y: int| 0 <= x < y < actors1.len() implies #[trigger] actors1[x].id
        != #[trigger] actors1[y].id by {
        assert(actors1[x].id == actors0[x].id && actors1[y].id == actors0[y].id);
    }
    assert forall|x: int, y: int| 0 <= x < y < props1.len() implies #[trigger] props1[x].id
        != #[trigger] props1[y].id by {
        assert(props1[x].id == props0[x].id && props1[y].id == props0[y].id);
    }
    // a held prop carries the bookkeeping
    assert forall|x: int, y: int|
        0 <= x < actors1.len() && 0 <= y < props1.len() && (#[trigger] actors1[x]).state
            == AvianPickupActorState::Holding((#[trigger] props1[y]).id) implies
        has_grab_components(props1[y]) by {
        if x == i {
            if y == j {
                if props0[j].grab.is_some() {
                    let h = choose|h: int| holder_of(actors0, props0[j].id, h);
                    assert(h == i);
                    assert(has_grab_components(props0[j]));
                }
            } else {
                assert(props1[y].id != pid);
            }
        } else {
            assert(actors0[x].state == AvianPickupActorState::Holding(props1[y].id));
            if y == j {
                assert(actors0[x].state != AvianPickupActorState::Holding(pid));
            } else {
                assert(has_grab_components(props0[y]));
            }
        }
    }
    // a prop with bookkeeping has a holder
    assert forall|y: int|
        0 <= y < props1.len() && (#[trigger] props1[y]).grab.is_some() implies exists|x: int|
        holder_of(actors1, props1[y].id, x) by {
        if y == j {
            assert(holder_of(actors1, pid, i));
        } else {
            assert(props0[y].grab.is_some());
            let h = choose|h: int| holder_of(actors0, props0[y].id, h);
            if h == i {
                if actors0[i].state == AvianPickupActorState::Holding(pid) {
                    assert(props0[y].id == pid);
                    assert(holder_of(actors1, props1[y].id, i));
                } else {
                    assert(false);
                }
            } else {
                assert(holder_of(actors1, props1[y].id, h));
            }
        }
    }
    // the two ephemerals travel together
    assert forall|y: int| 0 <= y < props1.len() implies ((#[trigger] props1[y]).shadow.is_some()
        <==> props1[y].grab.is_some()) by {
        if y != j {
            assert(props1[y] == props0[y]);
        }
    }
    // no prop is held twice
    assert forall|x: int, y: int| 0 <= x < y < actors1.len() implies !holding_same(
        #[trigger] actors1[x],
        #[trigger] actors1[y],
    ) by {
        if x != i && y != i {
            assert(!holding_same(actors0[x], actors0[y]));
        } else {
            let other = if x == i {
                y
            } else {
                x
            };
            assert(actors1[other] == actors0[other]);
            assert(actors0[other].state != AvianPickupActorState::Holding(pid));
        }
    }
}

} // verus!
