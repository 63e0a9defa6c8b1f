//! Terminal transition out of holding: drop the held prop where it is.

use vstd::prelude::*;

use crate::actor::{Actor, AvianPickupActorState};
use crate::cooldown::{Cooldown, Timer, DROP_COOLDOWN_MICROS};
use crate::interaction::pull::find_prop;
use crate::prop::Prop;
use crate::verb::Verb;
use crate::{has_grab_components, holder_of, holding_same, wf_store};
use crate::{AvianPickupSystem, Schedule, SystemEntry, SystemId};

verus! {

/// Register the drop handler in the verb stage of a host schedule.
pub fn plugin(schedule: &mut Schedule)
    ensures
        final(schedule).systems@ == old(schedule).systems@ + seq![
            (SystemEntry { id: SystemId::DropHeld, set: AvianPickupSystem::HandleVerb }),
        ],
{
    schedule.systems.push(
        SystemEntry { id: SystemId::DropHeld, set: AvianPickupSystem::HandleVerb },
    );
}

/// The drop verb takes effect: it names the prop the actor is holding and
/// the right cooldown has lapsed.
pub open spec fn drop_fires(a: Actor) -> bool {
    &&& a.verb matches Some(Verb::Drop(pid))
    &&& a.state == AvianPickupActorState::Holding(a.verb.unwrap()->Drop_0)
    &&& a.cooldown.right.finished_spec()
}

/// A prop with its ephemeral grab components removed. The mass snapshot and
/// the rotation offset stay: they are overwritten on the next grab, never
/// removed.
pub open spec fn released_prop(p: Prop) -> Prop {
    Prop { shadow: None, grab: None, ..p }
}

/// The actor after dropping: idle, with both cooldown timers set to the
/// half-second one-shot.
pub open spec fn dropped_actor(a: Actor) -> Actor {
    Actor {
        state: AvianPickupActorState::Idle,
        cooldown: Cooldown {
            left: Timer { elapsed_micros: 0u64, duration_micros: DROP_COOLDOWN_MICROS },
            right: Timer { elapsed_micros: 0u64, duration_micros: DROP_COOLDOWN_MICROS },
        },
        ..a
    }
}

/// Some actor among the first `n` drops the prop with id `pid` this step.
pub open spec fn drop_releases(actors: Seq<Actor>, n: int, pid: u64) -> bool {
    exists|i: int|
        0 <= i < n && drop_fires(#[trigger] actors[i]) && actors[i].verb.unwrap()->Drop_0 == pid
}

/// Releasing one held pair keeps the store coherent: the holder goes idle
/// (however its cooldowns change) while the prop loses its ephemerals.
pub proof fn lemma_release_step(
    actors0: Seq<Actor>,
    props0: Seq<Prop>,
    actors1: Seq<Actor>,
    props1: Seq<Prop>,
    i: int,
    j: int,
    a1: Actor,
)
    requires
        wf_store(actors0, props0),
        0 <= i < actors0.len(),
        0 <= j < props0.len(),
        actors0[i].state == AvianPickupActorState::Holding(props0[j].id),
        a1.id == actors0[i].id,
        a1.state == AvianPickupActorState::Idle,
        actors1 == actors0.update(i, a1),
        props1 == props0.update(j, released_prop(props0[j])),
    ensures
        wf_store(actors1, props1),
{
    let pid = props0[j].id;
    assert(forall|k: int|
        0 <= k < actors1.len() && k != i ==> actors1[k] == #[trigger] actors0[k]);
    assert(forall|m: int| 0 <= m < props1.len() && m != j ==> props1[m] == #[trigger] props0[m]);
    assert forall|x: int, y: int| 0 <= x < y < actors1.len() implies #[trigger] actors1[x].id
        != #[trigger] actors1[y].id by {
        assert(actors1[x].id == actors0[x].id && actors1[y].id == actors0[y].id);
    }
    assert forall|x: int, y: int| 0 <= x < y < props1.len() implies #[trigger] props1[x].id
        != #[trigger] props1[y].id by {
        assert(props1[x].id == props0[x].id && props1[y].id == props0[y].id);
    }
    assert forall|x: int, y: int|
        0 <= x < actors1.len() && 0 <= y < props1.len() && (#[trigger] actors1[x]).state
            == AvianPickupActorState::Holding((#[trigger] props1[y]).id) implies
        has_grab_components(props1[y]) by {
        assert(x != i);
        assert(actors0[x].state == AvianPickupActorState::Holding(props0[y].id));
        if y == j {
            assert(!holding_same(actors0[x], actors0[i]) || x == i);
        }
    }
    assert forall|y: int|
        0 <= y < props1.len() && (#[trigger] props1[y]).grab.is_some() implies exists|x: int|
        holder_of(actors1, props1[y].id, x) by {
        assert(y != j);
        assert(props0[y].grab.is_some());
        let h = choose|h: int| holder_of(actors0, props0[y].id, h);
        if h == i {
            assert(props0[y].id == pid);
            assert(props0[y].id != props0[j].id);
            assert(false);
        }
        assert(holder_of(actors1, props1[y].id, h));
    }
    assert forall|x: int, y: int| 0 <= x < y < actors1.len() implies !holding_same(
        #[trigger] actors1[x],
        #[trigger] actors1[y],
    ) by {
        if x != i && y != i {
            assert(!holding_same(actors0[x], actors0[y]));
        }
    }
}

/// Going idle without touching any prop keeps the store coherent, provided
/// the actor's held prop — if its state named one — resolves to no record.
pub proof fn lemma_release_actor_only(
    actors0: Seq<Actor>,
    props0: Seq<Prop>,
    actors1: Seq<Actor>,
    i: int,
    a1: Actor,
)
    requires
        wf_store(actors0, props0),
        0 <= i < actors0.len(),
        a1.id == actors0[i].id,
        a1.state == AvianPickupActorState::Idle,
        actors1 == actors0.update(i, a1),
        forall|y: int|
            0 <= y < props0.len() ==> actors0[i].state != AvianPickupActorState::Holding(
                (#[trigger] props0[y]).id,
            ),
    ensures
        wf_store(actors1, props0),
{
    assert(forall|k: int|
        0 <= k < actors1.len() && k != i ==> actors1[k] == #[trigger] actors0[k]);
    assert forall|x: int, y: int| 0 <= x < y < actors1.len() implies #[trigger] actors1[x].id
        != #[trigger] actors1[y].id by {
        assert(actors1[x].id == actors0[x].id && actors1[y].id == actors0[y].id);
    }
    assert forall|y: int|
        0 <= y < props0.len() && (#[trigger] props0[y]).grab.is_some() implies exists|x: int|
        holder_of(actors1, props0[y].id, x) by {
        let h = choose|h: int| holder_of(actors0, props0[y].id, h);
        assert(h != i);
        assert(holder_of(actors1, props0[y].id, h));
    }
    assert forall|x: int, y: int| 0 <= x < y < actors1.len() implies !holding_same(
        #[trigger] actors1[x],
        #[trigger] actors1[y],
    ) by {
        if x != i && y != i {
            assert(!holding_same(actors0[x], actors0[y]));
        }
    }
}

/// What the drop pass does to the store: exactly the actors whose drop verb
/// fires go idle with both cooldowns restarted, and exactly the props they
/// dropped lose their ephemerals.
pub open spec fn drop_applied(
    actors0: Seq<Actor>,
    props0: Seq<Prop>,
    actors1: Seq<Actor>,
    props1: Seq<Prop>,
) -> bool {
    &&& actors1.len() == actors0.len()
    &&& props1.len() == props0.len()
    &&& forall|i: int|
        0 <= i < actors0.len() ==> #[trigger] actors1[i] == (
        if drop_fires(actors0[i]) {
            dropped_actor(actors0[i])
        } else {
            actors0[i]
        })
    &&& forall|j: int|
        0 <= j < props0.len() ==> #[trigger] props1[j] == (
        if drop_releases(actors0, actors0.len() as int, props0[j].id) {
            released_prop(props0[j])
        } else {
            props0[j]
        })
}

/// The drop pass. An actor whose drop verb has survived its gates goes
/// idle, both its cooldowns restart at the half-second one-shot, the prop
/// loses its ephemeral grab components, and no impulse is applied.
pub fn drop(actors: &mut Vec<Actor>, props: &mut Vec<Prop>)
    requires
        wf_store(old(actors)@, old(props)@),
    ensures
        wf_store(final(actors)@, final(props)@),
        drop_applied(old(actors)@, old(props)@, final(actors)@, final(props)@),
{
    let n = actors.len();
    let mut i: usize = 0;
    while i < n
        invariant
            n == old(actors).len(),
            actors.len() == n,
            props.len() == old(props).len(),
            0 <= i <= n,
            wf_store(old(actors)@, old(props)@),
            wf_store(actors@, props@),
            forall|k: int| i <= k < n ==> #[trigger] actors[k] == old(actors)[k],
            forall|k: int|
                0 <= k < i ==> #[trigger] actors[k] == (
                if drop_fires(old(actors)[k]) {
                    dropped_actor(old(actors)[k])
                } else {
                    old(actors)[k]
                }),
            forall|j: int|
                0 <= j < old(props).len() ==> #[trigger] props[j] == (
                if drop_releases(old(actors)@, i as int, old(props)[j].id) {
                    released_prop(old(props)[j])
                } else {
                    old(props)[j]
                }),
        decreases n - i,
    {
        let ghost pre_actors = actors@;
        let ghost pre_props = props@;
        let a = actors[i];
        let fires: bool = match (a.verb, a.state) {
            (Some(Verb::Drop(pid)), AvianPickupActorState::Holding(held)) => pid == held
                && a.cooldown.right.finished(),
            _ => false,
        };
        proof {
            assert(fires == drop_fires(old(actors)[i as int]));
        }
        if fires {
            let pid = match a.verb {
                Some(Verb::Drop(p)) => p,
                _ => 0,
            };
            let mut a2 = a;
            a2.state = AvianPickupActorState::Idle;
            a2.cooldown.drop_held();
            actors.set(i, a2);
            match find_prop(props, pid) {
                Some(j) => {
                    let mut p2 = props[j];
                    p2.shadow = None;
                    p2.grab = None;
                    props.set(j, p2);
                    proof {
                        lemma_release_step(
                            pre_actors,
                            pre_props,
                            actors@,
                            props@,
                            i as int,
                            j as int,
                            actors@[i as int],
                        );
                        assert(props@[j as int] == released_prop(pre_props[j as int]));
                        lemma_drop_frame(
                            old(actors)@,
                            old(props)@,
                            pre_props,
                            props@,
                            i as int,
                            j as int,
                            pid,
                        );
                    }
                },
                None => {
                    proof {
                        crate::interaction::pull::lemma_prop_with_none(props@, pid);
                        lemma_release_actor_only(
                            pre_actors,
                            pre_props,
                            actors@,
                            i as int,
                            actors@[i as int],
                        );
                        assert forall|j: int|
                            0 <= j < old(props).len() implies #[trigger] props@[j] == (
                        if drop_releases(old(actors)@, i as int + 1, old(props)[j].id) {
                            released_prop(old(props)[j])
                        } else {
                            old(props)[j]
                        }) by {
                            if drop_releases(old(actors)@, i as int + 1, old(props)[j].id)
                                && !drop_releases(old(actors)@, i as int, old(props)[j].id) {
                                assert(old(props)[j].id == pid);
                                assert(props@[j].id == old(props)[j].id);
                                assert(false);
                            }
                        }
                    }
                },
            }
        } else {
            proof {
                assert forall|j: int|
                    0 <= j < old(props).len() implies #[trigger] props@[j] == (
                if drop_releases(old(actors)@, i as int + 1, old(props)[j].id) {
                    released_prop(old(props)[j])
                } else {
                    old(props)[j]
                }) by {
                    if drop_releases(old(actors)@, i as int + 1, old(props)[j].id)
                        && !drop_releases(old(actors)@, i as int, old(props)[j].id) {
                        assert(drop_fires(old(actors)[i as int]));
                        assert(false);
                    }
                }
            }
        }
        i = i + 1;
    }
}

/// After one firing drop, the props read as released for every id dropped by
/// the first `i + 1` actors: the newly released prop joins, no other prop
/// changes, and no earlier actor can have dropped this prop, it being held
/// by actor `i`.
proof fn lemma_drop_frame(
    actors_old: Seq<Actor>,
    props_old: Seq<Prop>,
    props_pre: Seq<Prop>,
    props_new: Seq<Prop>,
    i: int,
    j: int,
    pid: u64,
)
    requires
        wf_store(actors_old, props_old),
        0 <= i < actors_old.len(),
        0 <= j < props_old.len(),
        drop_fires(actors_old[i]),
        actors_old[i].verb.unwrap()->Drop_0 == pid,
        props_old[j].id == pid,
        props_pre.len() == props_old.len(),
        props_new == props_pre.update(j, released_prop(props_pre[j])),
        forall|m: int|
            0 <= m < props_old.len() ==> #[trigger] props_pre[m] == (
            if drop_releases(actors_old, i, props_old[m].id) {
                released_prop(props_old[m])
            } else {
                props_old[m]
            }),
    ensures
        forall|m: int|
            0 <= m < props_old.len() ==> #[trigger] props_new[m] == (
            if drop_releases(actors_old, i + 1, props_old[m].id) {
                released_prop(props_old[m])
            } else {
                props_old[m]
            }),
{
    assert forall|m: int|
        0 <= m < props_old.len() implies #[trigger] props_new[m] == (
    if drop_releases(actors_old, i + 1, props_old[m].id) {
        released_prop(props_old[m])
    } else {
        props_old[m]
    }) by {
        if m == j {
            // nobody before i dropped this prop: it was held by actor i
            if drop_releases(actors_old, i, pid) {
                let k = choose|k: int|
                    0 <= k < i && drop_fires(#[trigger] actors_old[k])
                        && actors_old[k].verb.unwrap()->Drop_0 == pid;
                assert(holding_same(actors_old[k], actors_old[i]));
                assert(false);
            }
            assert(props_pre[j] == props_old[j]);
            assert(drop_releases(actors_old, i + 1, pid));
        } else {
            assert(props_old[m].id != props_old[j].id);
            assert(props_new[m] == props_pre[m]);
            if drop_releases(actors_old, i + 1, props_old[m].id) && !drop_releases(
                actors_old,
                i,
                props_old[m].id,
            ) {
                assert(actors_old[i].verb.unwrap()->Drop_0 == props_old[m].id);
                assert(false);
            }
        }
    }
}

} // verus!
