//! Pickup-capable subjects: their configuration, state and per-step record.

use vstd::prelude::*;

use crate::cooldown::Cooldown;
use crate::math::{QuatFix, Vec3Fix, SCALE};
use crate::verb::Verb;

verus! {

/// Static per-actor configuration, loaded by the host. All values are
/// fixed-point micro-units and assumed finite and non-negative; negative
/// configuration is out of contract.
#[derive(Clone, Copy, Debug)]
pub struct AvianPickupActor {
    /// Length of the acquisition trace. A candidate hit within this length
    /// is grabbed; one beyond it (up to four times this length) is pulled.
    pub trace_length: u64,
    /// Magnitude base of a pull impulse, before mass adjustment.
    pub pull_force: u64,
    /// A candidate prop at or above this mass cannot be pulled or grabbed.
    pub mass_threshold: u64,
    /// The mass given to a prop while it is held.
    pub pickup_mass: u64,
}

/// The externally readable pickup state of an actor.
#[derive(Clone, Copy, Debug, PartialEq, Eq, Structural)]
pub enum AvianPickupActorState {
    /// Not interacting with any prop.
    Idle,
    /// Pulling the prop with this id closer with discrete impulses.
    Pulling(u64),
    /// Holding the prop with this id in front of the actor.
    Holding(u64),
}

/// One actor's record in the store the host hands to each step.
#[derive(Clone, Copy, Debug)]
pub struct Actor {
    /// The host's id for this actor. Unique across the store.
    pub id: u64,
    /// World position of the actor's origin.
    pub position: Vec3Fix,
    /// World rotation of the actor.
    pub rotation: QuatFix,
    /// Static configuration.
    pub config: AvianPickupActor,
    /// Current pickup state.
    pub state: AvianPickupActorState,
    /// Verb re-trigger gates.
    pub cooldown: Cooldown,
    /// The verb chosen this step, cleared and re-decided every step.
    pub verb: Option<Verb>,
}

impl Actor {
    /// An actor's record is well formed: timers are clamped and the pose is
    /// a bounded fixed-point encoding.
    pub open spec fn wf(self) -> bool {
        &&& self.cooldown.wf()
        &&& self.rotation.bounded(4 * SCALE)
    }
}

} // verus!
