//! The acquisition search and pull controller: find a grabbable candidate
//! along the actor's facing direction, grab it when close, pull it closer
//! with an impulse when distant, and revert stale pulls to idle.

use vstd::prelude::*;

use crate::actor::{Actor, AvianPickupActor, AvianPickupActorState};
use crate::cooldown::{Cooldown, Timer, HOLD_COOLDOWN_MICROS, PULL_COOLDOWN_MICROS};
use crate::math::{
    abs_int, lemma_comp_le_len, lemma_mul_div_bound, lemma_mul_div_shrinks, lemma_scale_comp_abs,
    mul_div, norm,
    scale_comp, scale_comp_spec, vec_sub, vec_sub_spec, Vec3Fix, FIX_LIMIT, SCALE,
};
use crate::prop::{Prop, RigidBodyKind};
use crate::verb::Verb;

pub mod find_in_trace;

use find_in_trace::find_prop_in_trace;
use crate::{AvianPickupSystem, Schedule, SystemEntry, SystemId};

verus! {

/// Register the acquisition search in the verb stage and the idle reset in
/// the reset stage of a host schedule.
pub fn plugin(schedule: &mut Schedule)
    ensures
        final(schedule).systems@ == old(schedule).systems@ + seq![
            (SystemEntry { id: SystemId::FindObject, set: AvianPickupSystem::HandleVerb }),
            (SystemEntry { id: SystemId::FlushPulling, set: AvianPickupSystem::ResetIdle }),
        ],
{
    schedule.systems.push(
        SystemEntry { id: SystemId::FindObject, set: AvianPickupSystem::HandleVerb },
    );
    schedule.systems.push(
        SystemEntry { id: SystemId::FlushPulling, set: AvianPickupSystem::ResetIdle },
    );
    proof {
        assert(schedule.systems@ =~= old(schedule).systems@ + seq![
            (SystemEntry { id: SystemId::FindObject, set: AvianPickupSystem::HandleVerb }),
            (SystemEntry { id: SystemId::FlushPulling, set: AvianPickupSystem::ResetIdle }),
        ]);
    }
}

/// A spatial-query hit: the entity hit and the cast distance at first
/// intersection.
#[derive(Clone, Copy, Debug)]
pub struct Candidate {
    /// The prop id the cast hit.
    pub entity: u64,
    /// Time of impact: the cast distance at first intersection.
    pub toi: u64,
}

/// The host's spatial-query results for one actor this step: the ray cast
/// along the facing direction, and the cube sweep used as fallback.
#[derive(Clone, Copy, Debug)]
pub struct CastSet {
    /// The actor the casts were made for.
    pub actor: u64,
    /// Nearest non-sensor hit of the ray cast, if any.
    pub ray: Option<Candidate>,
    /// Nearest non-sensor hit of the cube sweep, if any.
    pub shape: Option<Candidate>,
}

/// An impulse for the host to apply to a prop.
#[derive(Clone, Copy, Debug)]
pub struct ImpulseCommand {
    /// The prop to push.
    pub prop: u64,
    /// The impulse vector, in fixed-point units.
    pub impulse: Vec3Fix,
}

/// The mass adjustment of a pull impulse, in fixed point: `(m + 0.5) / 50`
/// for masses below `50`, and `1` from there on.
pub open spec fn mass_factor(m: int) -> int {
    if m < 50 * (SCALE as int) {
        (m + (SCALE as int) / 2) / 50
    } else {
        SCALE as int
    }
}

/// The magnitude of a pull impulse: the pull force times the mass
/// adjustment.
pub open spec fn impulse_magnitude(pull_force: int, m: int) -> int {
    pull_force * mass_factor(m) / (SCALE as int)
}

/// One component of a pull impulse: the direction from the object to the
/// actor, normalized and scaled to the magnitude in one rounding step; the
/// zero vector stays zero.
pub open spec fn impulse_comp(dc: int, dlen: int, magnitude: int) -> int {
    if dlen == 0 {
        0
    } else {
        scale_comp_spec(dc, magnitude, dlen)
    }
}

/// Mass adjustment of the pull impulse, as executable code.
pub fn adjust_impulse_for_mass(mass: u64) -> (f: u64)
    ensures
        f as int == mass_factor(mass as int),
        f <= 2 * SCALE,
{
    if mass < 50 * SCALE {
        (mass + SCALE / 2) / 50
    } else {
        SCALE
    }
}

/// Whether a candidate is eligible for pulling: its body must be simulated
/// by the integrator and its mass below the actor's threshold.
pub open spec fn can_pull_spec(kind: RigidBodyKind, mass: u64, config: AvianPickupActor) -> bool {
    kind == RigidBodyKind::Dynamic && mass < config.mass_threshold
}

/// Eligibility of a candidate, as executable code.
pub fn can_pull(kind: RigidBodyKind, mass: u64, config: &AvianPickupActor) -> (r: bool)
    ensures
        r == can_pull_spec(kind, mass, *config),
{
    let dynamic = match kind {
        RigidBodyKind::Dynamic => true,
        _ => false,
    };
    dynamic && mass < config.mass_threshold
}

/// The first cast set recorded for an actor, if any.
pub open spec fn cast_for(casts: Seq<CastSet>, id: u64) -> Option<CastSet>
    decreases casts.len(),
{
    if casts.len() == 0 {
        None
    } else if casts[0].actor == id {
        Some(casts[0])
    } else {
        cast_for(casts.skip(1), id)
    }
}

/// Find the cast set recorded for an actor.
fn find_cast(casts: &Vec<CastSet>, id: u64) -> (r: Option<CastSet>)
    ensures
        r == cast_for(casts@, id),
{
    let n = casts.len();
    let mut k: usize = 0;
    proof {
        assert(casts@.skip(0) =~= casts@);
    }
    while k < n
        invariant
            n == casts.len(),
            0 <= k <= n,
            cast_for(casts@, id) == cast_for(casts@.skip(k as int), id),
        decreases n - k,
    {
        proof {
            assert(casts@.skip(k as int)[0] == casts@[k as int]);
            assert(casts@.skip(k as int).skip(1) =~= casts@.skip(k as int + 1));
        }
        if casts[k].actor == id {
            return Some(casts[k]);
        }
        k = k + 1;
    }
    proof {
        assert(casts@.skip(n as int).len() == 0);
    }
    None
}

/// The first prop record carrying `id`, if any.
pub open spec fn prop_with(props: Seq<Prop>, id: u64) -> Option<Prop>
    decreases props.len(),
{
    if props.len() == 0 {
        None
    } else if props[0].id == id {
        Some(props[0])
    } else {
        prop_with(props.skip(1), id)
    }
}

/// Find the prop record carrying `id`.
pub fn find_prop(props: &Vec<Prop>, id: u64) -> (r: Option<usize>)
    ensures
        match r {
            Some(i) => i < props.len() && props[i as int].id == id && prop_with(props@, id)
                == Some(props[i as int]),
            None => prop_with(props@, id).is_none(),
        },
{
    let n = props.len();
    let mut k: usize = 0;
    proof {
        assert(props@.skip(0) =~= props@);
    }
    while k < n
        invariant
            n == props.len(),
            0 <= k <= n,
            prop_with(props@, id) == prop_with(props@.skip(k as int), id),
        decreases n - k,
    {
        proof {
            assert(props@.skip(k as int)[0] == props@[k as int]);
            assert(props@.skip(k as int).skip(1) =~= props@.skip(k as int + 1));
        }
        if props[k].id == id {
            return Some(k);
        }
        k = k + 1;
    }
    proof {
        assert(props@.skip(n as int).len() == 0);
    }
    None
}

/// When no record carries `id`, no index does.
pub proof fn lemma_prop_with_none(props: Seq<Prop>, id: u64)
    requires
        prop_with(props, id).is_none(),
    ensures
        forall|j: int| 0 <= j < props.len() ==> (#[trigger] props[j]).id != id,
    decreases props.len(),
{
    if props.len() > 0 {
        lemma_prop_with_none(props.skip(1), id);
        assert forall|j: int| 0 <= j < props.len() implies (#[trigger] props[j]).id != id by {
            if j > 0 {
                assert(props.skip(1)[j - 1] == props[j]);
            }
        }
    }
}

/// The candidate the search settles on for one actor, if any: the recorded
/// ray hit, else the recorded shape hit.
pub open spec fn chosen_candidate(casts: Seq<CastSet>, id: u64) -> Option<Candidate> {
    match cast_for(casts, id) {
        Some(cs) => if cs.ray.is_some() {
            cs.ray
        } else {
            cs.shape
        },
        None => None,
    }
}

/// Arithmetic bounds the pull controller needs of a record store.
pub open spec fn pull_ready(a: Actor, props: Seq<Prop>) -> bool {
    &&& a.cooldown.wf()
    &&& a.position.bounded(FIX_LIMIT as int)
    &&& a.config.pull_force <= (FIX_LIMIT as u64) / 2
    &&& forall|j: int| 0 <= j < props.len() ==> (#[trigger] props[j].position).bounded(
        FIX_LIMIT as int,
    )
}

/// What the pull phase decides for one actor, given the read-only stores:
/// nothing unless the actor's verb is pull, the right cooldown has finished,
/// the actor is not holding, the search found a candidate that resolves and
/// is eligible. A candidate within the trace length starts the hold
/// cooldown and hands the hold verb on; a farther one fires the pull
/// cooldown, records a pull impulse and marks the actor as pulling it,
/// keeping an already-pulling actor's target.
pub open spec fn pull_actor_after(a: Actor, props: Seq<Prop>, casts: Seq<CastSet>) -> Actor {
    if !pull_fires(a, props, casts) {
        a
    } else {
        let c = chosen_candidate(casts, a.id).unwrap();
        if c.toi <= a.config.trace_length {
            Actor {
                cooldown: Cooldown {
                    left: a.cooldown.left,
                    right: Timer { elapsed_micros: 0u64, duration_micros: HOLD_COOLDOWN_MICROS },
                },
                verb: Some(Verb::Hold(c.entity)),
                ..a
            }
        } else {
            Actor {
                cooldown: Cooldown {
                    left: a.cooldown.left,
                    right: Timer { elapsed_micros: 0u64, duration_micros: PULL_COOLDOWN_MICROS },
                },
                verb: None,
                state: match a.state {
                    AvianPickupActorState::Pulling(t) => AvianPickupActorState::Pulling(t),
                    _ => AvianPickupActorState::Pulling(c.entity),
                },
                ..a
            }
        }
    }
}

/// The guard of [`pull_actor_after`]: the search runs and succeeds.
pub open spec fn pull_fires(a: Actor, props: Seq<Prop>, casts: Seq<CastSet>) -> bool {
    &&& a.verb == Some(Verb::Pull)
    &&& a.cooldown.right.finished_spec()
    &&& !(a.state matches AvianPickupActorState::Holding(_))
    &&& chosen_candidate(casts, a.id).is_some()
    &&& prop_with(props, chosen_candidate(casts, a.id).unwrap().entity).is_some()
    &&& can_pull_spec(
        prop_with(props, chosen_candidate(casts, a.id).unwrap().entity).unwrap().kind,
        prop_with(props, chosen_candidate(casts, a.id).unwrap().entity).unwrap().mass,
        a.config,
    )
}

/// The guard of a pull impulse: the search succeeded on a candidate beyond
/// the trace length.
pub open spec fn pull_impulse_fires(a: Actor, props: Seq<Prop>, casts: Seq<CastSet>) -> bool {
    pull_fires(a, props, casts) && chosen_candidate(casts, a.id).unwrap().toi
        > a.config.trace_length
}

/// The impulse recorded for one pulling actor: from the object toward the
/// actor, scaled to the pull force under the mass adjustment.
pub open spec fn impulse_for(a: Actor, p: Prop) -> ImpulseCommand {
    let d = vec_sub_spec(a.position, p.position);
    let m = impulse_magnitude(a.config.pull_force as int, p.mass as int);
    ImpulseCommand {
        prop: p.id,
        impulse: Vec3Fix {
            x: impulse_comp(d.x as int, d.len_spec() as int, m) as i64,
            y: impulse_comp(d.y as int, d.len_spec() as int, m) as i64,
            z: impulse_comp(d.z as int, d.len_spec() as int, m) as i64,
        },
    }
}

/// The impulses the pull phase records over the first `n` actors, in store
/// order.
pub open spec fn impulses_after(
    actors: Seq<Actor>,
    props: Seq<Prop>,
    casts: Seq<CastSet>,
    n: int,
) -> Seq<ImpulseCommand>
    decreases n,
{
    if n <= 0 {
        Seq::empty()
    } else {
        impulses_after(actors, props, casts, n - 1) + if pull_impulse_fires(
            actors[n - 1],
            props,
            casts,
        ) {
            seq![
                impulse_for(
                    actors[n - 1],
                    prop_with(props, chosen_candidate(casts, actors[n - 1].id).unwrap().entity).unwrap(),
                ),
            ]
        } else {
            Seq::empty()
        }
    }
}

/// Compute the pull impulse for one actor and candidate prop.
fn pull_impulse(a: &Actor, p: &Prop) -> (cmd: ImpulseCommand)
    requires
        a.position.bounded(FIX_LIMIT as int),
        p.position.bounded(FIX_LIMIT as int),
        a.config.pull_force <= (FIX_LIMIT as u64) / 2,
    ensures
        cmd == impulse_for(*a, *p),
{
    let d = vec_sub(a.position, p.position);
    let factor = adjust_impulse_for_mass(p.mass);
    proof {
        lemma_mul_div_bound(
            a.config.pull_force as int,
            factor as int,
            SCALE as int,
            (FIX_LIMIT as int) / 2,
            2 * SCALE as int,
        );
    }
    let magnitude = mul_div(a.config.pull_force, factor, SCALE);
    let dlen = norm(d);
    if dlen == 0 {
        ImpulseCommand { prop: p.id, impulse: Vec3Fix::zero() }
    } else {
        proof {
            lemma_comp_le_len(d);
            lemma_mul_div_shrinks(magnitude as int, abs_int(d.x as int), dlen as int);
            lemma_mul_div_shrinks(magnitude as int, abs_int(d.y as int), dlen as int);
            lemma_mul_div_shrinks(magnitude as int, abs_int(d.z as int), dlen as int);
            vstd::arithmetic::mul::lemma_mul_is_commutative(abs_int(d.x as int), magnitude as int);
            vstd::arithmetic::mul::lemma_mul_is_commutative(abs_int(d.y as int), magnitude as int);
            vstd::arithmetic::mul::lemma_mul_is_commutative(abs_int(d.z as int), magnitude as int);
            lemma_scale_comp_abs(d.x as int, magnitude as int, dlen as int);
            lemma_scale_comp_abs(d.y as int, magnitude as int, dlen as int);
            lemma_scale_comp_abs(d.z as int, magnitude as int, dlen as int);
        }
        ImpulseCommand {
            prop: p.id,
            impulse: Vec3Fix {
                x: scale_comp(d.x, magnitude, dlen),
                y: scale_comp(d.y, magnitude, dlen),
                z: scale_comp(d.z, magnitude, dlen),
            },
        }
    }
}

/// What the pull phase does to the actors: each one is exactly
/// [`pull_actor_after`] of its previous record against the read-only stores.
pub open spec fn pull_applied(
    actors0: Seq<Actor>,
    props: Seq<Prop>,
    casts: Seq<CastSet>,
    actors1: Seq<Actor>,
) -> bool {
    &&& actors1.len() == actors0.len()
    &&& forall|i: int|
        0 <= i < actors0.len() ==> #[trigger] actors1[i] == pull_actor_after(
            actors0[i],
            props,
            casts,
        )
}

/// The pull phase. For every actor whose verb is pull, re-validates the
/// right cooldown, settles the search on the recorded casts (ray first),
/// resolves and screens the candidate, then either grabs it — hold cooldown
/// set, hold verb handed on — or pushes it toward the actor with a recorded
/// impulse, pull cooldown set, actor marked pulling. See
/// [`pull_actor_after`] for the exact decision.
pub fn find_object(actors: &mut Vec<Actor>, props: &Vec<Prop>, casts: &Vec<CastSet>) -> (impulses:
    Vec<ImpulseCommand>)
    requires
        forall|i: int|
            0 <= i < old(actors).len() ==> pull_ready(#[trigger] old(actors)[i], props@),
    ensures
        pull_applied(old(actors)@, props@, casts@, final(actors)@),
        impulses@ == impulses_after(old(actors)@, props@, casts@, old(actors).len() as int),
{
    let n = actors.len();
    let mut impulses: Vec<ImpulseCommand> = Vec::new();
    let mut i: usize = 0;
    while i < n
        invariant
            n == old(actors).len(),
            actors.len() == n,
            0 <= i <= n,
            forall|j: int| 0 <= j < n ==> pull_ready(#[trigger] old(actors)[j], props@),
            forall|j: int| i <= j < n ==> #[trigger] actors[j] == old(actors)[j],
            forall|j: int|
                0 <= j < i ==> #[trigger] actors[j] == pull_actor_after(
                    old(actors)[j],
                    props@,
                    casts@,
                ),
            impulses@ == impulses_after(old(actors)@, props@, casts@, i as int),
        decreases n - i,
    {
        let ghost old_a = actors@[i as int];
        let mut a = actors[i];
        let fires: bool;
        let mut candidate: Candidate = Candidate { entity: 0, toi: 0 };
        let mut prop_idx: usize = 0;
        let is_pull = match a.verb {
            Some(Verb::Pull) => true,
            _ => false,
        };
        let is_holding = match a.state {
            AvianPickupActorState::Holding(_) => true,
            _ => false,
        };
        if is_pull && a.cooldown.right.finished() && !is_holding {
            match find_cast(casts, a.id) {
                Some(cs) => {
                    match find_prop_in_trace(cs.ray, cs.shape) {
                        Some(c) => {
                            match find_prop(props, c.entity) {
                                Some(j) => {
                                    if can_pull(props[j].kind, props[j].mass, &a.config) {
                                        fires = true;
                                        candidate = c;
                                        prop_idx = j;
                                    } else {
                                        fires = false;
                                    }
                                },
                                None => {
                                    fires = false;
                                },
                            }
                        },
                        None => {
                            fires = false;
                        },
                    }
                },
                None => {
                    fires = false;
                },
            }
        } else {
            fires = false;
        }
        proof {
            assert(fires == pull_fires(old_a, props@, casts@));
        }
        if fires {
            if candidate.toi <= a.config.trace_length {
                a.cooldown.hold();
                a.verb = Some(Verb::Hold(candidate.entity));
                actors.set(i, a);
            } else {
                let cmd = pull_impulse(&a, &props[prop_idx]);
                impulses.push(cmd);
                a.cooldown.pull();
                let already_pulling = match a.state {
                    AvianPickupActorState::Pulling(_) => true,
                    _ => false,
                };
                if !already_pulling {
                    a.state = AvianPickupActorState::Pulling(candidate.entity);
                }
                a.verb = None;
                actors.set(i, a);
            }
        }
        proof {
            assert(actors@[i as int] == pull_actor_after(old_a, props@, casts@));
            assert(impulses@ =~= impulses_after(old(actors)@, props@, casts@, i as int + 1));
        }
        i = i + 1;
    }
    impulses
}

/// What the idle reset does to the actors: exactly the stale pulls revert.
pub open spec fn flush_applied(actors0: Seq<Actor>, actors1: Seq<Actor>) -> bool {
    &&& actors1.len() == actors0.len()
    &&& forall|i: int|
        0 <= i < actors0.len() ==> #[trigger] actors1[i] == (
        if flush_fires(actors0[i]) {
            Actor { state: AvianPickupActorState::Idle, ..actors0[i] }
        } else {
            actors0[i]
        })
}

/// The idle reset. Pulling happens in discrete impulses on a cooldown
/// cadence, so an actor should still read as pulling between impulses: the
/// state reverts to idle only once the right cooldown has fully lapsed with
/// no renewed pull verb assigned this step.
pub fn flush_pulling_state(actors: &mut Vec<Actor>)
    ensures
        flush_applied(old(actors)@, final(actors)@),
{
    let n = actors.len();
    let mut i: usize = 0;
    while i < n
        invariant
            n == old(actors).len(),
            actors.len() == n,
            0 <= i <= n,
            forall|j: int| i <= j < n ==> #[trigger] actors[j] == old(actors)[j],
            forall|j: int|
                0 <= j < i ==> #[trigger] actors[j] == (
                if flush_fires(old(actors)[j]) {
                    Actor { state: AvianPickupActorState::Idle, ..old(actors)[j] }
                } else {
                    old(actors)[j]
                }),
        decreases n - i,
    {
        let mut a = actors[i];
        let pulling = match a.state {
            AvianPickupActorState::Pulling(_) => true,
            _ => false,
        };
        let renewed = match a.verb {
            Some(Verb::Pull) => true,
            _ => false,
        };
        if pulling && !renewed && a.cooldown.right.finished() {
            a.state = AvianPickupActorState::Idle;
            actors.set(i, a);
        }
        i = i + 1;
    }
}

/// The guard of the idle reset: pulling, no pull verb assigned this step,
/// and the right cooldown lapsed.
pub open spec fn flush_fires(a: Actor) -> bool {
    &&& a.state matches AvianPickupActorState::Pulling(_)
    &&& a.verb != Some(Verb::Pull)
    &&& a.cooldown.right.finished_spec()
}

} // verus!
