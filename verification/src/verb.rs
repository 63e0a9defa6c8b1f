//! The per-step decision for an actor: which action is in effect.

use vstd::prelude::*;

verus! {

/// The single action chosen for an actor in one simulation step.
///
/// At most one verb is in effect per actor per step; a step with no verb is
/// the absence of a `Verb` in the actor's per-step slot.
#[derive(Clone, Copy, Debug)]
pub enum Verb {
    /// Search for a prop to pull or grab along the actor's facing direction.
    Pull,
    /// Start holding the prop with this id.
    Hold(u64),
    /// Drop the held prop with this id.
    Drop(u64),
    /// Throw: leaves the holding state for the prop with this id, if any
    /// prop is held. The throw impulse itself is an unresolved extension
    /// point and no impulse is applied here.
    Throw(Option<u64>),
}

} // verus!
