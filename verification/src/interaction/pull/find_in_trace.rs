//! Settling the acquisition search on the host's cast results, and the
//! parameters of the casts themselves.
//!
//! The host casts a ray from the actor's origin along its facing direction
//! against non-sensor colliders matching the actor's filter, and on a miss
//! sweeps a cube along the same direction and length as a bounding-volume
//! approximation of a cone cast. Both results come back as a [`CastSet`];
//! this module decides between them and says how long the casts must be.

use vstd::prelude::*;

use super::Candidate;
use crate::actor::AvianPickupActor;
use crate::math::SCALE;

verus! {

/// The trace length multiplier of the cast: candidates are searched up to
/// four times the configured trace length.
pub const TRACE_FACTOR: u64 = 4;

/// One inch in fixed-point world units (the world is in SI units; the
/// classic tuning measured in inches).
pub const METERS_PER_INCH_MICROS: u64 = 25_400;

/// How far the host must cast for an actor: four times the configured trace
/// length.
pub fn trace_length_for(config: &AvianPickupActor) -> (len: u64)
    requires
        config.trace_length <= u64::MAX / 4,
    ensures
        len == config.trace_length * TRACE_FACTOR,
{
    config.trace_length * TRACE_FACTOR
}

/// The edge of the cube the host sweeps as the fallback: twice the trace
/// factor in length units.
pub fn search_cube_edge() -> (edge: u64)
    ensures
        edge == 2 * TRACE_FACTOR * METERS_PER_INCH_MICROS,
{
    2 * TRACE_FACTOR * METERS_PER_INCH_MICROS
}

/// The acquisition precedence: a ray hit always wins over the shape-cast
/// fallback, whatever either hit.
pub fn find_prop_in_trace(ray: Option<Candidate>, shape: Option<Candidate>) -> (r: Option<
    Candidate,
>)
    ensures
        ray.is_some() ==> r == ray,
        ray.is_none() ==> r == shape,
{
    match ray {
        Some(hit) => Some(hit),
        None => shape,
    }
}

} // verus!
