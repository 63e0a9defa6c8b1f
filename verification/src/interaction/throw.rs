//! Terminal transition out of holding: throw. The concrete throw impulse is
//! an unresolved extension point; only the gated transition is performed and
//! no impulse is applied here.

use vstd::prelude::*;

use crate::actor::{Actor, AvianPickupActorState};
use crate::interaction::drop::{lemma_release_actor_only, lemma_release_step, released_prop};
use crate::interaction::pull::find_prop;
use crate::prop::Prop;
use crate::verb::Verb;
use crate::{holding_same, wf_store};
use crate::{AvianPickupSystem, Schedule, SystemEntry, SystemId};

verus! {

/// Register the throw handler in the verb stage of a host schedule.
pub fn plugin(schedule: &mut Schedule)
    ensures
        final(schedule).systems@ == old(schedule).systems@ + seq![
            (SystemEntry { id: SystemId::ThrowHeld, set: AvianPickupSystem::HandleVerb }),
        ],
{
    schedule.systems.push(
        SystemEntry { id: SystemId::ThrowHeld, set: AvianPickupSystem::HandleVerb },
    );
}

/// The throw verb takes effect on a held prop: it names the prop the actor
/// is holding and the left cooldown has lapsed. A throw verb carrying no
/// prop gates and does nothing.
pub open spec fn throw_fires(a: Actor) -> bool {
    &&& a.verb matches Some(Verb::Throw(Some(pid)))
    &&& a.state == AvianPickupActorState::Holding(a.verb.unwrap()->Throw_0.unwrap())
    &&& a.cooldown.left.finished_spec()
}

/// Some actor among the first `n` throws the prop with id `pid` this step.
pub open spec fn throw_releases(actors: Seq<Actor>, n: int, pid: u64) -> bool {
    exists|i: int|
        0 <= i < n && throw_fires(#[trigger] actors[i]) && actors[i].verb.unwrap()->Throw_0.unwrap()
            == pid
}

/// What the throw pass does to the store: exactly the actors whose throw
/// verb fires go idle, cooldowns untouched, and exactly the props they
/// threw lose their ephemerals.
pub open spec fn throw_applied(
    actors0: Seq<Actor>,
    props0: Seq<Prop>,
    actors1: Seq<Actor>,
    props1: Seq<Prop>,
) -> bool {
    &&& actors1.len() == actors0.len()
    &&& props1.len() == props0.len()
    &&& forall|i: int|
        0 <= i < actors0.len() ==> #[trigger] actors1[i] == (
        if throw_fires(actors0[i]) {
            Actor { state: AvianPickupActorState::Idle, ..actors0[i] }
        } else {
            actors0[i]
        })
    &&& forall|j: int|
        0 <= j < props0.len() ==> #[trigger] props1[j] == (
        if throw_releases(actors0, actors0.len() as int, props0[j].id) {
            released_prop(props0[j])
        } else {
            props0[j]
        })
}

/// The throw pass. An actor whose throw verb names its held prop goes idle
/// once the left cooldown has lapsed, and the prop loses its ephemeral grab
/// components; the cooldowns stay as they are.
pub fn throw(actors: &mut Vec<Actor>, props: &mut Vec<Prop>)
    requires
        wf_store(old(actors)@, old(props)@),
    ensures
        wf_store(final(actors)@, final(props)@),
        throw_applied(old(actors)@, old(props)@, final(actors)@, final(props)@),
{
    let n = actors.len();
    let mut i: usize = 0;
    while i < n
        invariant
            n == old(actors).len(),
            actors.len() == n,
            props.len() == old(props).len(),
            0 <= i <= n,
            wf_store(old(actors)@, old(props)@),
            wf_store(actors@, props@),
            forall|k: int| i <= k < n ==> #[trigger] actors[k] == old(actors)[k],
            forall|k: int|
                0 <= k < i ==> #[trigger] actors[k] == (
                if throw_fires(old(actors)[k]) {
                    Actor { state: AvianPickupActorState::Idle, ..old(actors)[k] }
                } else {
                    old(actors)[k]
                }),
            forall|j: int|
                0 <= j < old(props).len() ==> #[trigger] props[j] == (
                if throw_releases(old(actors)@, i as int, old(props)[j].id) {
                    released_prop(old(props)[j])
                } else {
                    old(props)[j]
                }),
        decreases n - i,
    {
        let ghost pre_actors = actors@;
        let ghost pre_props = props@;
        let a = actors[i];
        let fires: bool = match (a.verb, a.state) {
            (Some(Verb::Throw(Some(pid))), AvianPickupActorState::Holding(held)) => pid == held
                && a.cooldown.left.finished(),
            _ => false,
        };
        proof {
            assert(fires == throw_fires(old(actors)[i as int]));
        }
        if fires {
            let pid = match a.verb {
                Some(Verb::Throw(Some(p))) => p,
                _ => 0,
            };
            let mut a2 = a;
            a2.state = AvianPickupActorState::Idle;
            actors.set(i, a2);
            match find_prop(props, pid) {
                Some(j) => {
                    let mut p2 = props[j];
                    p2.shadow = None;
                    p2.grab = None;
                    props.set(j, p2);
                    proof {
                        lemma_release_step(
                            pre_actors,
                            pre_props,
                            actors@,
                            props@,
                            i as int,
                            j as int,
                            actors@[i as int],
                        );
                        assert(props@[j as int] == released_prop(pre_props[j as int]));
                        lemma_throw_frame(
                            old(actors)@,
                            old(props)@,
                            pre_props,
                            props@,
                            i as int,
                            j as int,
                            pid,
                        );
                    }
                },
                None => {
                    proof {
                        crate::interaction::pull::lemma_prop_with_none(props@, pid);
                        lemma_release_actor_only(
                            pre_actors,
                            pre_props,
                            actors@,
                            i as int,
                            actors@[i as int],
                        );
                        assert forall|j: int|
                            0 <= j < old(props).len() implies #[trigger] props@[j] == (
                        if throw_releases(old(actors)@, i as int + 1, old(props)[j].id) {
                            released_prop(old(props)[j])
                        } else {
                            old(props)[j]
                        }) by {
                            if throw_releases(old(actors)@, i as int + 1, old(props)[j].id)
                                && !throw_releases(old(actors)@, i as int, old(props)[j].id) {
                                assert(old(props)[j].id == pid);
                                assert(props@[j].id == old(props)[j].id);
                                assert(false);
                            }
                        }
                    }
                },
            }
        } else {
            proof {
                assert forall|j: int|
                    0 <= j < old(props).len() implies #[trigger] props@[j] == (
                if throw_releases(old(actors)@, i as int + 1, old(props)[j].id) {
                    released_prop(old(props)[j])
                } else {
                    old(props)[j]
                }) by {
                    if throw_releases(old(actors)@, i as int + 1, old(props)[j].id)
                        && !throw_releases(old(actors)@, i as int, old(props)[j].id) {
                        assert(throw_fires(old(actors)[i as int]));
                        assert(false);
                    }
                }
            }
        }
        i = i + 1;
    }
}

/// After one firing throw, the props read as released for every id thrown
/// by the first `i + 1` actors.
proof fn lemma_throw_frame(
    actors_old: Seq<Actor>,
    props_old: Seq<Prop>,
    props_pre: Seq<Prop>,
    props_new: Seq<Prop>,
    i: int,
    j: int,
    pid: u64,
)
    requires
        wf_store(actors_old, props_old),
        0 <= i < actors_old.len(),
        0 <= j < props_old.len(),
        throw_fires(actors_old[i]),
        actors_old[i].verb.unwrap()->Throw_0.unwrap() == pid,
        props_old[j].id == pid,
        props_pre.len() == props_old.len(),
        props_new == props_pre.update(j, released_prop(props_pre[j])),
        forall|m: int|
            0 <= m < props_old.len() ==> #[trigger] props_pre[m] == (
            if throw_releases(actors_old, i, props_old[m].id) {
                released_prop(props_old[m])
            } else {
                props_old[m]
            }),
    ensures
        forall|m: int|
            0 <= m < props_old.len() ==> #[trigger] props_new[m] == (
            if throw_releases(actors_old, i + 1, props_old[m].id) {
                released_prop(props_old[m])
            } else {
                props_old[m]
            }),
{
    assert forall|m: int|
        0 <= m < props_old.len() implies #[trigger] props_new[m] == (
    if throw_releases(actors_old, i + 1, props_old[m].id) {
        released_prop(props_old[m])
    } else {
        props_old[m]
    }) by {
        if m == j {
            if throw_releases(actors_old, i, pid) {
                let k = choose|k: int|
                    0 <= k < i && throw_fires(#[trigger] actors_old[k])
                        && actors_old[k].verb.unwrap()->Throw_0.unwrap() == pid;
                assert(holding_same(actors_old[k], actors_old[i]));
                assert(false);
            }
            assert(props_pre[j] == props_old[j]);
            assert(throw_releases(actors_old, i + 1, pid));
        } else {
            assert(props_old[m].id != props_old[j].id);
            assert(props_new[m] == props_pre[m]);
            if throw_releases(actors_old, i + 1, props_old[m].id) && !throw_releases(
                actors_old,
                i,
                props_old[m].id,
            ) {
                assert(actors_old[i].verb.unwrap()->Throw_0.unwrap() == props_old[m].id);
                assert(false);
            }
        }
    }
}

} // verus!
