//! Grabbable rigid objects and the bookkeeping attached to them while held.

use vstd::prelude::*;

use crate::math::{QuatFix, Vec3Fix, SCALE};

verus! {

/// The host's classification of a rigid body.
#[derive(Clone, Copy, Debug, PartialEq, Eq, Structural)]
pub enum RigidBodyKind {
    /// Simulated by the physics integrator; eligible for pulling.
    Dynamic,
    /// Animated from outside the physics integrator.
    Kinematic,
    /// Never moves.
    Static,
}

/// Shadow-controller targets and authority limits for one held prop.
/// Ephemeral: attached on entering holding, removed on leaving it.
#[derive(Clone, Copy, Debug)]
pub struct ShadowParams {
    /// Pose position the controller drags the prop toward.
    pub target_position: Vec3Fix,
    /// Pose rotation the controller drags the prop toward.
    pub target_rotation: QuatFix,
    /// Cap on angular acceleration per second, before the contact ramp.
    pub max_angular: u64,
    /// Cap on angular damping per step.
    pub max_damp_angular: u64,
    /// Cap on linear acceleration per second.
    pub max_speed: u64,
    /// Cap on linear damping per step.
    pub max_damp_speed: u64,
}

/// Per-step hold bookkeeping for one held prop.
/// Ephemeral: attached on entering holding, removed on leaving it.
#[derive(Clone, Copy, Debug)]
pub struct GrabParams {
    /// Smooth ramp from 0 to [`SCALE`] (that is, 0 to 1) after a grab,
    /// preventing an instantaneous rotational snap.
    pub contact_amount: u64,
    /// Seconds (in microseconds) left to arrive at the target pose.
    pub time_to_arrive: u64,
    /// Elapsed holding time; a diagnostic accumulator, not otherwise
    /// consumed.
    pub error_time: u64,
}

impl GrabParams {
    /// The bookkeeping of a fresh grab.
    pub fn reset() -> (g: GrabParams)
        ensures
            g == (GrabParams { contact_amount: 0u64, time_to_arrive: 0u64, error_time: 0u64 }),
    {
        GrabParams { contact_amount: 0, time_to_arrive: 0, error_time: 0 }
    }

    /// The contact ramp never leaves `0 ..= SCALE`.
    pub open spec fn wf(self) -> bool {
        self.contact_amount <= SCALE
    }
}

/// One prop's record in the store the host hands to each step.
#[derive(Clone, Copy, Debug)]
pub struct Prop {
    /// The host's id for this prop. Unique across the store.
    pub id: u64,
    /// World position.
    pub position: Vec3Fix,
    /// World rotation.
    pub rotation: QuatFix,
    /// Linear velocity, read from and written back to the integrator.
    pub linear_velocity: Vec3Fix,
    /// Angular velocity, read from and written back to the integrator.
    pub angular_velocity: Vec3Fix,
    /// Current mass; swapped to the actor's pickup mass while held.
    pub mass: u64,
    /// The host's rigid-body classification.
    pub kind: RigidBodyKind,
    /// Snapshot of the pre-grab mass, created on first grab and overwritten
    /// (never removed) on later grabs.
    pub non_pickup_mass: Option<u64>,
    /// The prop's rotation in actor-local space at grab time, created on
    /// first grab and overwritten (never removed) on later grabs.
    pub pre_pickup_rotation: Option<QuatFix>,
    /// Shadow-controller parameters; present exactly while held.
    pub shadow: Option<ShadowParams>,
    /// Hold bookkeeping; present exactly while held.
    pub grab: Option<GrabParams>,
}

impl Prop {
    /// A prop's record is well formed: its pose is a bounded fixed-point
    /// encoding and an attached contact ramp is in range.
    pub open spec fn wf(self) -> bool {
        &&& self.rotation.bounded(4 * SCALE)
        &&& match self.grab {
            Some(g) => g.wf(),
            None => true,
        }
    }
}

} // verus!
