//! The hold / shadow controller: a velocity-space control law that drags a
//! held prop toward a pose fixed relative to the actor, without teleporting
//! it, plus the contact ramp and hold bookkeeping around it.

use vstd::prelude::*;

use crate::math::{
    abs_int, isqrt, lemma_comp_le_len, lemma_len_le, lemma_mul_div_bound, lemma_mul_div_shrinks,
    lemma_abs_square, lemma_norm_sq_nonneg, lemma_scale_comp_abs, lemma_sqrt_nat_bounds, min_int,
    mul_div, norm,
    norm_sq, scale_comp, scale_comp_spec, sqrt_nat, vec_sub, vec_sub_spec, Vec3Fix, FIX_LIMIT,
    SCALE,
};
use crate::actor::{Actor, AvianPickupActorState};
use crate::prop::{GrabParams, Prop, ShadowParams};
use crate::{AvianPickupSystem, Schedule, SystemEntry, SystemId};

pub mod on_hold;

verus! {

/// Register hold entry, the hold observation and the shadow controller in
/// the verb stage of a host schedule.
pub fn plugin(schedule: &mut Schedule)
    ensures
        final(schedule).systems@ == old(schedule).systems@ + seq![
            (SystemEntry { id: SystemId::OnHold, set: AvianPickupSystem::HandleVerb }),
            (SystemEntry { id: SystemId::HoldObserve, set: AvianPickupSystem::HandleVerb }),
            (SystemEntry { id: SystemId::GrabSimulate, set: AvianPickupSystem::HandleVerb }),
        ],
{
    schedule.systems.push(SystemEntry { id: SystemId::OnHold, set: AvianPickupSystem::HandleVerb });
    schedule.systems.push(
        SystemEntry { id: SystemId::HoldObserve, set: AvianPickupSystem::HandleVerb },
    );
    schedule.systems.push(
        SystemEntry { id: SystemId::GrabSimulate, set: AvianPickupSystem::HandleVerb },
    );
    proof {
        assert(schedule.systems@ =~= old(schedule).systems@ + seq![
            (SystemEntry { id: SystemId::OnHold, set: AvianPickupSystem::HandleVerb }),
            (SystemEntry { id: SystemId::HoldObserve, set: AvianPickupSystem::HandleVerb }),
            (SystemEntry { id: SystemId::GrabSimulate, set: AvianPickupSystem::HandleVerb }),
        ]);
    }
}

/// Velocities whose squared fixed-point norm is below this are treated as
/// zero by the controller. It is `1e-6` in squared world units: [`SCALE`]
/// in squared micro-units.
pub open spec fn dead_band() -> int {
    SCALE as int
}

/// The damping stage of the velocity controller, one component.
///
/// A velocity in the dead band is zeroed. Otherwise, with a positive damping
/// cap, an opposing acceleration shrinks the velocity toward zero: all the
/// way when the speed is within the cap, by the cap's magnitude when it is
/// beyond it. Without a damping cap the velocity passes through.
pub open spec fn damped_comp(c: int, ss: int, max_damp: int) -> int {
    if ss < dead_band() {
        0
    } else if max_damp > 0 {
        let speed = sqrt_nat(ss as nat) as int;
        if speed > max_damp {
            c - scale_comp_spec(c, max_damp, speed)
        } else {
            0
        }
    } else {
        c
    }
}

/// The acceleration stage of the velocity controller, one component.
///
/// With a positive authority cap, the error `delta` scaled by `ft` is added,
/// rescaled down to the cap's magnitude when it exceeds it; `dlen` is the
/// floor norm of `delta`. Without authority nothing is added.
pub open spec fn accel_comp(dc: int, dlen: int, max_authority: int, ft: int) -> int {
    if max_authority > 0 {
        let a = scale_comp_spec(dc, ft, SCALE as int);
        let sd = (dlen * ft) / (SCALE as int);
        if sd > max_authority {
            scale_comp_spec(a, max_authority, sd)
        } else {
            a
        }
    } else {
        0
    }
}

/// One component of the full velocity controller: the damped velocity plus
/// the capped acceleration toward the target.
pub open spec fn ctrl_comp(
    c: int,
    ss: int,
    dc: int,
    dlen: int,
    max_authority: int,
    max_damp: int,
    ft: int,
) -> int {
    damped_comp(c, ss, max_damp) + accel_comp(dc, dlen, max_authority, ft)
}

/// The damping stage of the trimmed controller variant, one component: the
/// velocity is shrunk along its own direction to `speed - max_damp`, or
/// zeroed when its speed is within the damping cap.
pub open spec fn trimmed_damp_comp(c: int, ss: int, max_damp: int) -> int {
    if ss > max_damp * max_damp {
        let speed = sqrt_nat(ss as nat) as int;
        scale_comp_spec(c, speed - max_damp, speed)
    } else {
        0
    }
}

/// The error `delta` scaled by `ft`, one component.
pub open spec fn scaled_comp(dc: int, ft: int) -> int {
    scale_comp_spec(dc, ft, SCALE as int)
}

/// Squared norm of the scaled error vector.
pub open spec fn scaled_norm_sq(delta: Vec3Fix, ft: int) -> int {
    scaled_comp(delta.x as int, ft) * scaled_comp(delta.x as int, ft) + scaled_comp(
        delta.y as int,
        ft,
    ) * scaled_comp(delta.y as int, ft) + scaled_comp(delta.z as int, ft) * scaled_comp(
        delta.z as int,
        ft,
    )
}

/// The acceleration stage of the trimmed controller variant, one component:
/// `a` is the scaled error component and `as2` the squared norm of the
/// scaled error vector, which is normalized down to the authority cap when
/// it exceeds it.
pub open spec fn trimmed_accel_comp(a: int, as2: int, max_authority: int) -> int {
    if max_authority > 0 {
        if as2 > max_authority * max_authority {
            scale_comp_spec(a, max_authority, sqrt_nat(as2 as nat) as int)
        } else {
            a
        }
    } else {
        0
    }
}

/// The two damping formulations agree: on any velocity component, the
/// capped-opposing-acceleration damping of [`damped_comp`] and the
/// normalize-then-shrink damping of [`trimmed_damp_comp`] differ by at most
/// one fixed-point unit (one millionth of a world unit), wherever the
/// damping cap is at least the width of the dead band. `c` is one component
/// of a velocity whose squared norm is `ss`.
pub proof fn lemma_damp_formulations_agree(c: int, ss: int, max_damp: int)
    requires
        0 <= ss,
        c * c <= ss,
        max_damp * max_damp >= dead_band(),
        max_damp > 0,
    ensures
        abs_int(damped_comp(c, ss, max_damp) - trimmed_damp_comp(c, ss, max_damp)) <= 1,
{
    lemma_sqrt_nat_bounds(ss as nat);
    let sp = sqrt_nat(ss as nat) as int;
    if ss < dead_band() {
        assert(!(ss > max_damp * max_damp));
    } else if ss <= max_damp * max_damp {
        if sp > max_damp {
            assert((max_damp + 1) * (max_damp + 1) <= sp * sp) by (nonlinear_arith)
                requires
                    0 <= max_damp + 1 <= sp,
            ;
            assert(max_damp * max_damp < (max_damp + 1) * (max_damp + 1)) by (nonlinear_arith)
                requires
                    max_damp >= 0,
            ;
        }
    } else {
        // ss > max_damp^2, so the floor root is at least the cap
        if sp < max_damp {
            assert((sp + 1) * (sp + 1) <= max_damp * max_damp) by (nonlinear_arith)
                requires
                    0 <= sp + 1 <= max_damp,
            ;
        }
        if sp == max_damp {
            assert(trimmed_damp_comp(c, ss, max_damp) == 0) by {
                assert(scale_comp_spec(c, 0, sp) == 0) by {
                    if c >= 0 {
                        assert(c * 0 == 0) by (nonlinear_arith);
                        assert(0int / sp == 0) by {
                            vstd::arithmetic::div_mod::lemma_div_of0(sp);
                        }
                    } else {
                        assert((-c) * 0 == 0) by (nonlinear_arith);
                        assert(0int / sp == 0) by {
                            vstd::arithmetic::div_mod::lemma_div_of0(sp);
                        }
                    }
                }
            }
        } else {
            let a = abs_int(c);
            lemma_abs_square(c);
            if a > sp {
                assert((sp + 1) * (sp + 1) <= a * a) by (nonlinear_arith)
                    requires
                        0 <= sp + 1 <= a,
                ;
            }
            lemma_damp_agree_mag(a, sp, max_damp);
            let f1 = a - (a * max_damp) / sp;
            let f2 = (a * (sp - max_damp)) / sp;
            if c >= 0 {
                assert(damped_comp(c, ss, max_damp) == f1);
                assert(trimmed_damp_comp(c, ss, max_damp) == f2);
            } else {
                assert(damped_comp(c, ss, max_damp) == c + (a * max_damp) / sp);
                assert(trimmed_damp_comp(c, ss, max_damp) == -f2);
                assert(c + (a * max_damp) / sp == -f1);
            }
        }
    }
}

/// The two acceleration formulations coincide wherever neither caps: when
/// the scaled error is within the authority cap by both measures — the
/// product of the error's norm with the scaling, as [`accel_comp`] measures
/// it, and the norm of the already-scaled error, as [`trimmed_accel_comp`]
/// measures it — both stages return the scaled error unchanged. Only at the
/// cap do the two roundings of the rescale differ.
pub proof fn lemma_accel_formulations_agree_uncapped(
    dc: int,
    dlen: int,
    max_authority: int,
    ft: int,
    as2: int,
)
    requires
        max_authority > 0,
        (dlen * ft) / (SCALE as int) <= max_authority,
        as2 <= max_authority * max_authority,
    ensures
        accel_comp(dc, dlen, max_authority, ft) == trimmed_accel_comp(
            scaled_comp(dc, ft),
            as2,
            max_authority,
        ),
{
}

/// The magnitude form of the damping agreement: with `0 < damp < n` and a
/// component magnitude `a <= n`, shrinking by the capped opposition,
/// `a - a*damp/n`, and shrinking along the direction, `a*(n - damp)/n`,
/// differ by at most one, the first never below the second.
proof fn lemma_damp_agree_mag(a: int, n: int, damp: int)
    requires
        0 <= a <= n,
        0 < damp < n,
    ensures
        (a * (n - damp)) / n <= a - (a * damp) / n,
        a - (a * damp) / n <= (a * (n - damp)) / n + 1,
{
    let q = (a * damp) / n;
    let r = (a * damp) % n;
    vstd::arithmetic::div_mod::lemma_fundamental_div_mod(a * damp, n);
    assert(a * damp == n * q + r);
    vstd::arithmetic::div_mod::lemma_mod_bound(a * damp, n);
    assert(a * damp >= 0) by (nonlinear_arith)
        requires
            a >= 0,
            damp >= 0,
    ;
    vstd::arithmetic::div_mod::lemma_div_pos_is_pos(a * damp, n);
    assert(0 <= r < n);
    if r == 0 {
        assert(a * (n - damp) == n * (a - q)) by (nonlinear_arith)
            requires
                a * damp == n * q + 0,
        ;
        vstd::arithmetic::div_mod::lemma_div_multiples_vanish(a - q, n);
        assert((n * (a - q)) / n == a - q);
    } else {
        assert(a * (n - damp) == n * (a - q - 1) + (n - r)) by (nonlinear_arith)
            requires
                a * damp == n * q + r,
        ;
        vstd::arithmetic::div_mod::lemma_div_multiples_vanish_fancy(a - q - 1, n - r, n);
        assert((n * (a - q - 1) + (n - r)) / n == a - q - 1);
    }
}

/// The damping stage of [`compute_controller`], as executable code.
fn damp_velocity(velocity: Vec3Fix, max_damp_speed: u64) -> (vd: Vec3Fix)
    requires
        velocity.bounded(FIX_LIMIT as int),
    ensures
        vd.x as int == damped_comp(
            velocity.x as int,
            velocity.norm_sq_spec(),
            max_damp_speed as int,
        ),
        vd.y as int == damped_comp(
            velocity.y as int,
            velocity.norm_sq_spec(),
            max_damp_speed as int,
        ),
        vd.z as int == damped_comp(
            velocity.z as int,
            velocity.norm_sq_spec(),
            max_damp_speed as int,
        ),
        vd.bounded(FIX_LIMIT as int),
{
    let ss = norm_sq(velocity);
    if ss < SCALE as u128 {
        Vec3Fix::zero()
    } else if max_damp_speed > 0 {
        let speed = isqrt(ss);
        if speed > max_damp_speed {
            proof {
                lemma_comp_le_len(velocity);
                lemma_mul_div_shrinks(
                    abs_int(velocity.x as int),
                    max_damp_speed as int,
                    speed as int,
                );
                lemma_mul_div_shrinks(
                    abs_int(velocity.y as int),
                    max_damp_speed as int,
                    speed as int,
                );
                lemma_mul_div_shrinks(
                    abs_int(velocity.z as int),
                    max_damp_speed as int,
                    speed as int,
                );
                lemma_scale_comp_abs(velocity.x as int, max_damp_speed as int, speed as int);
                lemma_scale_comp_abs(velocity.y as int, max_damp_speed as int, speed as int);
                lemma_scale_comp_abs(velocity.z as int, max_damp_speed as int, speed as int);
            }
            let sx = scale_comp(velocity.x, max_damp_speed, speed);
            let sy = scale_comp(velocity.y, max_damp_speed, speed);
            let sz = scale_comp(velocity.z, max_damp_speed, speed);
            Vec3Fix { x: velocity.x - sx, y: velocity.y - sy, z: velocity.z - sz }
        } else {
            Vec3Fix::zero()
        }
    } else {
        velocity
    }
}

/// The acceleration stage of [`compute_controller`], as executable code.
fn accel_vector(delta: Vec3Fix, max_speed: u64, scale_delta: u64) -> (va: Vec3Fix)
    requires
        delta.bounded(2 * FIX_LIMIT as int),
        scale_delta <= FIX_LIMIT as u64,
    ensures
        va.x as int == accel_comp(
            delta.x as int,
            delta.len_spec() as int,
            max_speed as int,
            scale_delta as int,
        ),
        va.y as int == accel_comp(
            delta.y as int,
            delta.len_spec() as int,
            max_speed as int,
            scale_delta as int,
        ),
        va.z as int == accel_comp(
            delta.z as int,
            delta.len_spec() as int,
            max_speed as int,
            scale_delta as int,
        ),
        va.bounded(2 * FIX_LIMIT as int * FIX_LIMIT as int / SCALE as int),
{
    if max_speed > 0 {
        proof {
            lemma_mul_div_bound(
                abs_int(delta.x as int),
                scale_delta as int,
                SCALE as int,
                2 * FIX_LIMIT as int,
                FIX_LIMIT as int,
            );
            lemma_mul_div_bound(
                abs_int(delta.y as int),
                scale_delta as int,
                SCALE as int,
                2 * FIX_LIMIT as int,
                FIX_LIMIT as int,
            );
            lemma_mul_div_bound(
                abs_int(delta.z as int),
                scale_delta as int,
                SCALE as int,
                2 * FIX_LIMIT as int,
                FIX_LIMIT as int,
            );
            lemma_scale_comp_abs(delta.x as int, scale_delta as int, SCALE as int);
            lemma_scale_comp_abs(delta.y as int, scale_delta as int, SCALE as int);
            lemma_scale_comp_abs(delta.z as int, scale_delta as int, SCALE as int);
        }
        let ax = scale_comp(delta.x, scale_delta, SCALE);
        let ay = scale_comp(delta.y, scale_delta, SCALE);
        let az = scale_comp(delta.z, scale_delta, SCALE);
        let dlen = norm(delta);
        proof {
            lemma_len_le(delta, 2 * FIX_LIMIT as int);
            lemma_mul_div_bound(
                dlen as int,
                scale_delta as int,
                SCALE as int,
                4 * FIX_LIMIT as int,
                FIX_LIMIT as int,
            );
        }
        let sd = mul_div(dlen, scale_delta, SCALE);
        if sd > max_speed {
            proof {
                lemma_mul_div_shrinks(abs_int(ax as int), max_speed as int, sd as int);
                lemma_mul_div_shrinks(abs_int(ay as int), max_speed as int, sd as int);
                lemma_mul_div_shrinks(abs_int(az as int), max_speed as int, sd as int);
                lemma_scale_comp_abs(ax as int, max_speed as int, sd as int);
                lemma_scale_comp_abs(ay as int, max_speed as int, sd as int);
                lemma_scale_comp_abs(az as int, max_speed as int, sd as int);
            }
            Vec3Fix {
                x: scale_comp(ax, max_speed, sd),
                y: scale_comp(ay, max_speed, sd),
                z: scale_comp(az, max_speed, sd),
            }
        } else {
            Vec3Fix { x: ax, y: ay, z: az }
        }
    } else {
        Vec3Fix::zero()
    }
}

/// The velocity controller. Damps the current velocity, then accelerates
/// it toward the error `delta` scaled by `scale_delta`, each stage capped by
/// its authority limit. See [`ctrl_comp`] for the exact law.
pub fn compute_controller(
    velocity: Vec3Fix,
    delta: Vec3Fix,
    max_speed: u64,
    max_damp_speed: u64,
    scale_delta: u64,
) -> (v: Vec3Fix)
    requires
        velocity.bounded(FIX_LIMIT as int),
        delta.bounded(2 * FIX_LIMIT as int),
        scale_delta <= FIX_LIMIT as u64,
    ensures
        v.x as int == ctrl_comp(
            velocity.x as int,
            velocity.norm_sq_spec(),
            delta.x as int,
            delta.len_spec() as int,
            max_speed as int,
            max_damp_speed as int,
            scale_delta as int,
        ),
        v.y as int == ctrl_comp(
            velocity.y as int,
            velocity.norm_sq_spec(),
            delta.y as int,
            delta.len_spec() as int,
            max_speed as int,
            max_damp_speed as int,
            scale_delta as int,
        ),
        v.z as int == ctrl_comp(
            velocity.z as int,
            velocity.norm_sq_spec(),
            delta.z as int,
            delta.len_spec() as int,
            max_speed as int,
            max_damp_speed as int,
            scale_delta as int,
        ),
        v.bounded(3 * FIX_LIMIT as int * FIX_LIMIT as int / SCALE as int),
{
    let vd = damp_velocity(velocity, max_damp_speed);
    let va = accel_vector(delta, max_speed, scale_delta);
    Vec3Fix { x: vd.x + va.x, y: vd.y + va.y, z: vd.z + va.z }
}

/// The trimmed formulation of the velocity controller: it normalizes the
/// velocity direction and subtracts the damping cap from the speed, instead
/// of adding a capped opposing acceleration, and caps the acceleration by
/// the squared norm of the already-scaled error. See [`trimmed_damp_comp`]
/// and [`trimmed_accel_comp`] for the exact law.
pub fn compute_controller_trimmed(
    velocity: Vec3Fix,
    delta: Vec3Fix,
    max_speed: u64,
    max_damp_speed: u64,
    scale_delta: u64,
) -> (v: Vec3Fix)
    requires
        velocity.bounded(FIX_LIMIT as int),
        delta.bounded(2 * FIX_LIMIT as int),
        scale_delta <= FIX_LIMIT as u64,
    ensures
        v.x as int == trimmed_damp_comp(
            velocity.x as int,
            velocity.norm_sq_spec(),
            max_damp_speed as int,
        ) + trimmed_accel_comp(
            scaled_comp(delta.x as int, scale_delta as int),
            scaled_norm_sq(delta, scale_delta as int),
            max_speed as int,
        ),
        v.y as int == trimmed_damp_comp(
            velocity.y as int,
            velocity.norm_sq_spec(),
            max_damp_speed as int,
        ) + trimmed_accel_comp(
            scaled_comp(delta.y as int, scale_delta as int),
            scaled_norm_sq(delta, scale_delta as int),
            max_speed as int,
        ),
        v.z as int == trimmed_damp_comp(
            velocity.z as int,
            velocity.norm_sq_spec(),
            max_damp_speed as int,
        ) + trimmed_accel_comp(
            scaled_comp(delta.z as int, scale_delta as int),
            scaled_norm_sq(delta, scale_delta as int),
            max_speed as int,
        ),
{
    let ss = norm_sq(velocity);
    proof {
        assert((max_damp_speed as int) * (max_damp_speed as int) <= u128::MAX)
            by (nonlinear_arith)
            requires
                max_damp_speed <= u64::MAX,
        ;
        lemma_norm_sq_nonneg(velocity);
    }
    let dd: u128 = (max_damp_speed as u128) * (max_damp_speed as u128);
    let vd: Vec3Fix;
    if ss > dd {
        let sp = isqrt(ss);
        proof {
            if (sp as int) < max_damp_speed as int {
                assert((sp as int + 1) * (sp as int + 1) <= (max_damp_speed as int) * (
                max_damp_speed as int)) by (nonlinear_arith)
                    requires
                        0 <= sp as int + 1 <= max_damp_speed as int,
                ;
            }
            assert(sp >= 1) by {
                if sp == 0 {
                    assert((sp as nat) * (sp as nat) == 0) by (nonlinear_arith)
                        requires
                            sp == 0,
                    ;
                    assert((sp as nat + 1) * (sp as nat + 1) == 1) by (nonlinear_arith)
                        requires
                            sp == 0,
                    ;
                }
            }
            lemma_comp_le_len(velocity);
            lemma_mul_div_shrinks(
                abs_int(velocity.x as int),
                sp as int - max_damp_speed as int,
                sp as int,
            );
            lemma_mul_div_shrinks(
                abs_int(velocity.y as int),
                sp as int - max_damp_speed as int,
                sp as int,
            );
            lemma_mul_div_shrinks(
                abs_int(velocity.z as int),
                sp as int - max_damp_speed as int,
                sp as int,
            );
            lemma_scale_comp_abs(velocity.x as int, sp as int - max_damp_speed as int, sp as int);
            lemma_scale_comp_abs(velocity.y as int, sp as int - max_damp_speed as int, sp as int);
            lemma_scale_comp_abs(velocity.z as int, sp as int - max_damp_speed as int, sp as int);
        }
        let ns = sp - max_damp_speed;
        vd = Vec3Fix {
            x: scale_comp(velocity.x, ns, sp),
            y: scale_comp(velocity.y, ns, sp),
            z: scale_comp(velocity.z, ns, sp),
        };
    } else {
        vd = Vec3Fix::zero();
    }
    let va: Vec3Fix;
    if max_speed > 0 {
        proof {
            lemma_mul_div_bound(
                abs_int(delta.x as int),
                scale_delta as int,
                SCALE as int,
                2 * FIX_LIMIT as int,
                FIX_LIMIT as int,
            );
            lemma_mul_div_bound(
                abs_int(delta.y as int),
                scale_delta as int,
                SCALE as int,
                2 * FIX_LIMIT as int,
                FIX_LIMIT as int,
            );
            lemma_mul_div_bound(
                abs_int(delta.z as int),
                scale_delta as int,
                SCALE as int,
                2 * FIX_LIMIT as int,
                FIX_LIMIT as int,
            );
            lemma_scale_comp_abs(delta.x as int, scale_delta as int, SCALE as int);
            lemma_scale_comp_abs(delta.y as int, scale_delta as int, SCALE as int);
            lemma_scale_comp_abs(delta.z as int, scale_delta as int, SCALE as int);
        }
        let accel = Vec3Fix {
            x: scale_comp(delta.x, scale_delta, SCALE),
            y: scale_comp(delta.y, scale_delta, SCALE),
            z: scale_comp(delta.z, scale_delta, SCALE),
        };
        let as2 = norm_sq(accel);
        proof {
            assert((max_speed as int) * (max_speed as int) <= u128::MAX) by (nonlinear_arith)
                requires
                    max_speed <= u64::MAX,
            ;
            lemma_norm_sq_nonneg(accel);
        }
        let mm: u128 = (max_speed as u128) * (max_speed as u128);
        if as2 > mm {
            let n = isqrt(as2);
            proof {
                if (n as int) < max_speed as int {
                    assert((n as int + 1) * (n as int + 1) <= (max_speed as int) * (
                    max_speed as int)) by (nonlinear_arith)
                        requires
                            0 <= n as int + 1 <= max_speed as int,
                    ;
                }
                assert(n >= 1) by {
                    if n == 0 {
                        assert((n as nat + 1) * (n as nat + 1) == 1) by (nonlinear_arith)
                            requires
                                n == 0,
                        ;
                    }
                }
                lemma_comp_le_len(accel);
                lemma_mul_div_shrinks(abs_int(accel.x as int), max_speed as int, n as int);
                lemma_mul_div_shrinks(abs_int(accel.y as int), max_speed as int, n as int);
                lemma_mul_div_shrinks(abs_int(accel.z as int), max_speed as int, n as int);
                lemma_scale_comp_abs(accel.x as int, max_speed as int, n as int);
                lemma_scale_comp_abs(accel.y as int, max_speed as int, n as int);
                lemma_scale_comp_abs(accel.z as int, max_speed as int, n as int);
            }
            va = Vec3Fix {
                x: scale_comp(accel.x, max_speed, n),
                y: scale_comp(accel.y, max_speed, n),
                z: scale_comp(accel.z, max_speed, n),
            };
        } else {
            va = accel;
        }
    } else {
        va = Vec3Fix::zero();
    }
    Vec3Fix { x: vd.x + va.x, y: vd.y + va.y, z: vd.z + va.z }
}

/// The acceleration stage of the trimmed controller alone, without any
/// damping of the current velocity: returns the capped acceleration that
/// [`compute_controller_trimmed`] would add.
pub fn compute_collider_no_damp(
    velocity: Vec3Fix,
    delta: Vec3Fix,
    max_speed: u64,
    max_damp_speed: u64,
    scale_delta: u64,
) -> (v: Vec3Fix)
    requires
        delta.bounded(2 * FIX_LIMIT as int),
        scale_delta <= FIX_LIMIT as u64,
    ensures
        v.x as int == trimmed_accel_comp(
            scaled_comp(delta.x as int, scale_delta as int),
            scaled_norm_sq(delta, scale_delta as int),
            max_speed as int,
        ),
        v.y as int == trimmed_accel_comp(
            scaled_comp(delta.y as int, scale_delta as int),
            scaled_norm_sq(delta, scale_delta as int),
            max_speed as int,
        ),
        v.z as int == trimmed_accel_comp(
            scaled_comp(delta.z as int, scale_delta as int),
            scaled_norm_sq(delta, scale_delta as int),
            max_speed as int,
        ),
{
    if max_speed > 0 {
        proof {
            lemma_mul_div_bound(
                abs_int(delta.x as int),
                scale_delta as int,
                SCALE as int,
                2 * FIX_LIMIT as int,
                FIX_LIMIT as int,
            );
            lemma_mul_div_bound(
                abs_int(delta.y as int),
                scale_delta as int,
                SCALE as int,
                2 * FIX_LIMIT as int,
                FIX_LIMIT as int,
            );
            lemma_mul_div_bound(
                abs_int(delta.z as int),
                scale_delta as int,
                SCALE as int,
                2 * FIX_LIMIT as int,
                FIX_LIMIT as int,
            );
            lemma_scale_comp_abs(delta.x as int, scale_delta as int, SCALE as int);
            lemma_scale_comp_abs(delta.y as int, scale_delta as int, SCALE as int);
            lemma_scale_comp_abs(delta.z as int, scale_delta as int, SCALE as int);
        }
        let accel = Vec3Fix {
            x: scale_comp(delta.x, scale_delta, SCALE),
            y: scale_comp(delta.y, scale_delta, SCALE),
            z: scale_comp(delta.z, scale_delta, SCALE),
        };
        let as2 = norm_sq(accel);
        proof {
            assert((max_speed as int) * (max_speed as int) <= u128::MAX) by (nonlinear_arith)
                requires
                    max_speed <= u64::MAX,
            ;
            lemma_norm_sq_nonneg(accel);
        }
        let mm: u128 = (max_speed as u128) * (max_speed as u128);
        if as2 > mm {
            let n = isqrt(as2);
            proof {
                assert(n >= 1) by {
                    if n == 0 {
                        assert((n as nat + 1) * (n as nat + 1) == 1) by (nonlinear_arith)
                            requires
                                n == 0,
                        ;
                    }
                }
                if (n as int) < max_speed as int {
                    assert((n as int + 1) * (n as int + 1) <= (max_speed as int) * (
                    max_speed as int)) by (nonlinear_arith)
                        requires
                            0 <= n as int + 1 <= max_speed as int,
                    ;
                }
                lemma_comp_le_len(accel);
                lemma_mul_div_shrinks(abs_int(accel.x as int), max_speed as int, n as int);
                lemma_mul_div_shrinks(abs_int(accel.y as int), max_speed as int, n as int);
                lemma_mul_div_shrinks(abs_int(accel.z as int), max_speed as int, n as int);
            }
            Vec3Fix {
                x: scale_comp(accel.x, max_speed, n),
                y: scale_comp(accel.y, max_speed, n),
                z: scale_comp(accel.z, max_speed, n),
            }
        } else {
            accel
        }
    } else {
        Vec3Fix::zero()
    }
}

/// The longest step the shadow controller accepts: one hour, a machine
/// limit keeping `dt * SCALE` within `u64`.
pub const MAX_STEP_MICROS: u64 = 3_600_000_000;

/// The portion of the way to the target to cover this step: `dt` over the
/// time to arrive, clamped to one, or all the way when no arrival time is
/// left. In fixed point: `SCALE` is one.
pub open spec fn fraction_of(tta: int, dt: int) -> int {
    if tta > 0 {
        min_int(dt * (SCALE as int) / tta, SCALE as int)
    } else {
        SCALE as int
    }
}

/// The arrival time left after this step.
pub open spec fn arrival_left(tta: int, dt: int) -> int {
    if tta - dt >= 0 {
        tta - dt
    } else {
        0
    }
}

/// The per-second scaling of the error: the fraction covered this step
/// divided by the step time.
pub open spec fn fraction_time_of(tta: int, dt: int) -> int {
    fraction_of(tta, dt) * (SCALE as int) / dt
}

/// One step of the shadow controller.
///
/// Computes the fraction of the remaining arrival time this step covers and
/// returns the arrival time left. When the fraction is zero the velocities
/// are left alone; otherwise both are driven by the velocity controller:
/// the linear velocity toward the position error, and the angular velocity
/// toward `delta_angles`, the rotation error `target_rotation` composed with
/// the inverse current rotation in scaled-axis form, which the caller
/// supplies since its extraction is the host's floating-point trigonometry.
pub fn compute_shadow_controller(
    params: &ShadowParams,
    position: Vec3Fix,
    delta_angles: Vec3Fix,
    linear_velocity: &mut Vec3Fix,
    angular_velocity: &mut Vec3Fix,
    seconds_to_arrival: u64,
    dt: u64,
) -> (r: u64)
    requires
        1 <= dt <= MAX_STEP_MICROS,
        position.bounded(FIX_LIMIT as int),
        params.target_position.bounded(FIX_LIMIT as int),
        old(linear_velocity).bounded(FIX_LIMIT as int),
        old(angular_velocity).bounded(FIX_LIMIT as int),
        delta_angles.bounded(2 * FIX_LIMIT as int),
    ensures
        r as int == arrival_left(seconds_to_arrival as int, dt as int),
        fraction_of(seconds_to_arrival as int, dt as int) == 0 ==> *final(linear_velocity) == *old(
            linear_velocity,
        ) && *final(angular_velocity) == *old(angular_velocity),
        fraction_of(seconds_to_arrival as int, dt as int) != 0 ==> shadow_velocities_hold(
            *params,
            position,
            delta_angles,
            *old(linear_velocity),
            *old(angular_velocity),
            *final(linear_velocity),
            *final(angular_velocity),
            seconds_to_arrival as int,
            dt as int,
        ),
{
    let fraction: u64 = if seconds_to_arrival > 0 {
        proof {
            lemma_mul_div_bound(
                dt as int,
                SCALE as int,
                seconds_to_arrival as int,
                MAX_STEP_MICROS as int,
                SCALE as int,
            );
        }
        let f = mul_div(dt, SCALE, seconds_to_arrival);
        if f < SCALE {
            f
        } else {
            SCALE
        }
    } else {
        SCALE
    };
    let arrival: u64 = if seconds_to_arrival > dt {
        seconds_to_arrival - dt
    } else {
        0
    };
    if fraction == 0 {
        return arrival;
    }
    let delta_position = vec_sub(params.target_position, position);
    proof {
        lemma_mul_div_bound(fraction as int, SCALE as int, dt as int, SCALE as int, SCALE as int);
        vstd::arithmetic::div_mod::lemma_div_nonincreasing(
            (fraction as int) * (SCALE as int),
            dt as int,
        );
        assert((fraction as int) * (SCALE as int) <= (FIX_LIMIT as int)) by (nonlinear_arith)
            requires
                0 <= fraction <= SCALE,
                SCALE == 1_000_000,
                FIX_LIMIT == 1_000_000_000_000,
        ;
    }
    let fraction_time = mul_div(fraction, SCALE, dt);
    *linear_velocity = compute_controller(
        *linear_velocity,
        delta_position,
        params.max_speed,
        params.max_damp_speed,
        fraction_time,
    );
    *angular_velocity = compute_controller(
        *angular_velocity,
        delta_angles,
        params.max_angular,
        params.max_damp_angular,
        fraction_time,
    );
    arrival
}

/// What the shadow controller's velocity update establishes, when the step
/// fraction is not zero: both velocities follow the controller law, the
/// linear one against the position error and the angular one against the
/// supplied rotation error.
pub open spec fn shadow_velocities_hold(
    params: ShadowParams,
    position: Vec3Fix,
    delta_angles: Vec3Fix,
    lin0: Vec3Fix,
    ang0: Vec3Fix,
    lin1: Vec3Fix,
    ang1: Vec3Fix,
    tta: int,
    dt: int,
) -> bool {
    let dp = vec_sub_spec(params.target_position, position);
    let ft = fraction_time_of(tta, dt);
    &&& lin1.x as int == ctrl_comp(
        lin0.x as int,
        lin0.norm_sq_spec(),
        dp.x as int,
        dp.len_spec() as int,
        params.max_speed as int,
        params.max_damp_speed as int,
        ft,
    )
    &&& lin1.y as int == ctrl_comp(
        lin0.y as int,
        lin0.norm_sq_spec(),
        dp.y as int,
        dp.len_spec() as int,
        params.max_speed as int,
        params.max_damp_speed as int,
        ft,
    )
    &&& lin1.z as int == ctrl_comp(
        lin0.z as int,
        lin0.norm_sq_spec(),
        dp.z as int,
        dp.len_spec() as int,
        params.max_speed as int,
        params.max_damp_speed as int,
        ft,
    )
    &&& ang1.x as int == ctrl_comp(
        ang0.x as int,
        ang0.norm_sq_spec(),
        delta_angles.x as int,
        delta_angles.len_spec() as int,
        params.max_angular as int,
        params.max_damp_angular as int,
        ft,
    )
    &&& ang1.y as int == ctrl_comp(
        ang0.y as int,
        ang0.norm_sq_spec(),
        delta_angles.y as int,
        delta_angles.len_spec() as int,
        params.max_angular as int,
        params.max_damp_angular as int,
        ft,
    )
    &&& ang1.z as int == ctrl_comp(
        ang0.z as int,
        ang0.norm_sq_spec(),
        delta_angles.z as int,
        delta_angles.len_spec() as int,
        params.max_angular as int,
        params.max_damp_angular as int,
        ft,
    )
}

/// Forwarder kept for callers that think of the law as "shadow control":
/// one step of [`compute_shadow_controller`].
pub fn compute_shadow_control(
    shadow: &ShadowParams,
    seconds_to_arrival: u64,
    dt: u64,
    position: Vec3Fix,
    delta_angles: Vec3Fix,
    velocity: &mut Vec3Fix,
    angvel: &mut Vec3Fix,
) -> (r: u64)
    requires
        1 <= dt <= MAX_STEP_MICROS,
        position.bounded(FIX_LIMIT as int),
        shadow.target_position.bounded(FIX_LIMIT as int),
        old(velocity).bounded(FIX_LIMIT as int),
        old(angvel).bounded(FIX_LIMIT as int),
        delta_angles.bounded(2 * FIX_LIMIT as int),
    ensures
        r as int == arrival_left(seconds_to_arrival as int, dt as int),
        fraction_of(seconds_to_arrival as int, dt as int) == 0 ==> *final(velocity) == *old(
            velocity,
        ) && *final(angvel) == *old(angvel),
        fraction_of(seconds_to_arrival as int, dt as int) != 0 ==> shadow_velocities_hold(
            *shadow,
            position,
            delta_angles,
            *old(velocity),
            *old(angvel),
            *final(velocity),
            *final(angvel),
            seconds_to_arrival as int,
            dt as int,
        ),
{
    compute_shadow_controller(
        shadow,
        position,
        delta_angles,
        velocity,
        angvel,
        seconds_to_arrival,
        dt,
    )
}

/// No contact-sliding correction is applied: at the scales exercised here it
/// is a pass-through, so the velocity is returned unchanged.
pub fn phys_compute_slide_direction(
    velocity: Vec3Fix,
    angular_velocity: Vec3Fix,
    min_mass: u64,
) -> (r: Vec3Fix)
    ensures
        r == velocity,
{
    velocity
}

/// A prop is held: its ephemeral grab components are attached.
pub open spec fn held(p: Prop) -> bool {
    p.grab.is_some() && p.shadow.is_some()
}

/// The contact ramp after one step: a linear interpolation of the contact
/// amount toward one (that is, [`SCALE`]) by twice the step time, reaching
/// one after half a second and preventing an instantaneous rotational snap
/// on grab. The interpolation factor is clamped at one so the ramp never
/// overshoots.
pub open spec fn contact_ramped(ca: int, dt: int) -> int {
    ca + ((SCALE as int) - ca) * min_int(2 * dt, SCALE as int) / (SCALE as int)
}

/// The rotational authority after the cubic contact ramp:
/// `max_angular * contact_amount^3`, each factor rescaled by [`SCALE`].
pub open spec fn ramped_angular(max_angular: int, ca: int) -> int {
    ((max_angular * ca / (SCALE as int)) * ca / (SCALE as int)) * ca / (SCALE as int)
}

/// Saturating addition within `u64`, for the diagnostic hold clock.
pub open spec fn sat_add(a: int, b: int) -> int {
    min_int(a + b, u64::MAX as int)
}

/// The rotation error of one held prop, supplied by the host: the scaled
/// axis of `target_rotation` composed with the inverse current rotation.
#[derive(Clone, Copy, Debug)]
pub struct RotationError {
    /// The prop the error belongs to.
    pub prop: u64,
    /// The rotation error as a scaled axis: rotation axis times angle.
    pub delta_angles: Vec3Fix,
}

/// The first rotation error recorded for `id`, if any.
pub open spec fn error_for(errors: Seq<RotationError>, id: u64) -> Option<Vec3Fix>
    decreases errors.len(),
{
    if errors.len() == 0 {
        None
    } else if errors[0].prop == id {
        Some(errors[0].delta_angles)
    } else {
        error_for(errors.skip(1), id)
    }
}

/// Find the rotation error recorded for `id`.
fn find_error(errors: &Vec<RotationError>, id: u64) -> (r: Option<Vec3Fix>)
    ensures
        r == error_for(errors@, id),
{
    let n = errors.len();
    let mut k: usize = 0;
    proof {
        assert(errors@.skip(0) =~= errors@);
    }
    while k < n
        invariant
            n == errors.len(),
            0 <= k <= n,
            error_for(errors@, id) == error_for(errors@.skip(k as int), id),
        decreases n - k,
    {
        proof {
            assert(errors@.skip(k as int)[0] == errors@[k as int]);
            assert(errors@.skip(k as int).skip(1) =~= errors@.skip(k as int + 1));
        }
        if errors[k].prop == id {
            return Some(errors[k].delta_angles);
        }
        k = k + 1;
    }
    proof {
        assert(errors@.skip(n as int).len() == 0);
    }
    None
}

/// A held prop's record carries values the controller arithmetic accepts.
pub open spec fn sim_ready(p: Prop) -> bool {
    &&& p.position.bounded(FIX_LIMIT as int)
    &&& p.linear_velocity.bounded(FIX_LIMIT as int)
    &&& p.angular_velocity.bounded(FIX_LIMIT as int)
    &&& p.shadow.is_some() ==> p.shadow.unwrap().target_position.bounded(FIX_LIMIT as int)
    &&& p.grab.is_some() ==> p.grab.unwrap().wf()
}

/// What one simulated step does to a held prop: the contact ramp advances,
/// the arrival clock counts down, the hold clock counts up, and when the
/// step fraction is not zero the velocities follow the controller law with
/// the rotational authority under the cubic contact ramp.
pub open spec fn simulated_held(p: Prop, q: Prop, delta_angles: Vec3Fix, dt: u64) -> bool {
    let g = p.grab.unwrap();
    let s = p.shadow.unwrap();
    let ca1 = contact_ramped(g.contact_amount as int, dt as int);
    let eff = ShadowParams {
        max_angular: ramped_angular(s.max_angular as int, ca1) as u64,
        ..s
    };
    &&& q.id == p.id
    &&& q.position == p.position
    &&& q.rotation == p.rotation
    &&& q.mass == p.mass
    &&& q.kind == p.kind
    &&& q.non_pickup_mass == p.non_pickup_mass
    &&& q.pre_pickup_rotation == p.pre_pickup_rotation
    &&& q.shadow == p.shadow
    &&& q.grab == Some(
        GrabParams {
            contact_amount: ca1 as u64,
            time_to_arrive: arrival_left(g.time_to_arrive as int, dt as int) as u64,
            error_time: sat_add(g.error_time as int, dt as int) as u64,
        },
    )
    &&& if fraction_of(g.time_to_arrive as int, dt as int) == 0 {
        q.linear_velocity == p.linear_velocity && q.angular_velocity == p.angular_velocity
    } else {
        shadow_velocities_hold(
            eff,
            p.position,
            delta_angles,
            p.linear_velocity,
            p.angular_velocity,
            q.linear_velocity,
            q.angular_velocity,
            g.time_to_arrive as int,
            dt as int,
        )
    }
}

/// One simulated step for one held prop.
fn simulate_held(p: Prop, delta_angles: Vec3Fix, dt: u64) -> (q: Prop)
    requires
        held(p),
        sim_ready(p),
        delta_angles.bounded(2 * FIX_LIMIT as int),
        1 <= dt <= MAX_STEP_MICROS,
    ensures
        simulated_held(p, q, delta_angles, dt),
        q.grab.is_some() ==> q.grab.unwrap().wf(),
{
    let mut grab = p.grab.unwrap();
    let shadow = p.shadow.unwrap();
    let t: u64 = if 2 * dt < SCALE {
        2 * dt
    } else {
        SCALE
    };
    proof {
        lemma_mul_div_shrinks(
            (SCALE - grab.contact_amount) as int,
            t as int,
            SCALE as int,
        );
    }
    let step = mul_div(SCALE - grab.contact_amount, t, SCALE);
    grab.contact_amount = grab.contact_amount + step;
    proof {
        lemma_mul_div_shrinks(
            (shadow.max_angular as int) * (grab.contact_amount as int) / (SCALE as int),
            grab.contact_amount as int,
            SCALE as int,
        );
        lemma_mul_div_shrinks(shadow.max_angular as int, grab.contact_amount as int, SCALE as int);
    }
    let e1 = mul_div(shadow.max_angular, grab.contact_amount, SCALE);
    let e2 = mul_div(e1, grab.contact_amount, SCALE);
    proof {
        lemma_mul_div_shrinks(e2 as int, grab.contact_amount as int, SCALE as int);
    }
    let e3 = mul_div(e2, grab.contact_amount, SCALE);
    let effective = ShadowParams {
        target_position: shadow.target_position,
        target_rotation: shadow.target_rotation,
        max_angular: e3,
        max_damp_angular: shadow.max_damp_angular,
        max_speed: shadow.max_speed,
        max_damp_speed: shadow.max_damp_speed,
    };
    let mut linear_velocity = p.linear_velocity;
    let mut angular_velocity = p.angular_velocity;
    let arrival = compute_shadow_control(
        &effective,
        grab.time_to_arrive,
        dt,
        p.position,
        delta_angles,
        &mut linear_velocity,
        &mut angular_velocity,
    );
    grab.time_to_arrive = arrival;
    let slid = phys_compute_slide_direction(linear_velocity, angular_velocity, p.mass);
    grab.error_time = if dt <= u64::MAX - grab.error_time {
        grab.error_time + dt
    } else {
        u64::MAX
    };
    Prop {
        id: p.id,
        position: p.position,
        rotation: p.rotation,
        linear_velocity: slid,
        angular_velocity,
        mass: p.mass,
        kind: p.kind,
        non_pickup_mass: p.non_pickup_mass,
        pre_pickup_rotation: p.pre_pickup_rotation,
        shadow: p.shadow,
        grab: Some(grab),
    }
}

/// What the hold loop does to the props: exactly the held props with a
/// recorded rotation error take one [`simulated_held`] step; every other
/// prop is untouched.
pub open spec fn simulate_applied(
    props0: Seq<Prop>,
    rotation_errors: Seq<RotationError>,
    dt: u64,
    props1: Seq<Prop>,
) -> bool {
    &&& props1.len() == props0.len()
    &&& forall|i: int|
        0 <= i < props0.len() ==> if held(#[trigger] props0[i]) && error_for(
            rotation_errors,
            props0[i].id,
        ).is_some() {
            simulated_held(
                props0[i],
                props1[i],
                error_for(rotation_errors, props0[i].id).unwrap(),
                dt,
            )
        } else {
            props1[i] == props0[i]
        }
}

/// The per-step hold loop: every held prop is driven one step toward its
/// target pose by the shadow controller. A held prop with no rotation error
/// recorded this step is left untouched; any other prop is untouched too.
pub fn grabcontroller_simulate(
    props: &mut Vec<Prop>,
    rotation_errors: &Vec<RotationError>,
    dt: u64,
)
    requires
        1 <= dt <= MAX_STEP_MICROS,
        forall|i: int| 0 <= i < old(props).len() ==> #[trigger] sim_ready(old(props)[i]),
        forall|k: int|
            0 <= k < rotation_errors@.len() ==> (#[trigger] rotation_errors@[k].delta_angles)
                .bounded(2 * FIX_LIMIT as int),
    ensures
        simulate_applied(old(props)@, rotation_errors@, dt, final(props)@),
{
    let n = props.len();
    let mut i: usize = 0;
    while i < n
        invariant
            1 <= dt <= MAX_STEP_MICROS,
            n == old(props).len(),
            props.len() == n,
            0 <= i <= n,
            forall|j: int| 0 <= j < n ==> #[trigger] sim_ready(old(props)[j]),
            forall|k: int|
                0 <= k < rotation_errors@.len() ==> (#[trigger] rotation_errors@[k].delta_angles)
                    .bounded(2 * FIX_LIMIT as int),
            forall|j: int| i <= j < n ==> #[trigger] props[j] == old(props)[j],
            forall|j: int|
                0 <= j < i ==> if held(#[trigger] old(props)[j]) && error_for(
                    rotation_errors@,
                    old(props)[j].id,
                ).is_some() {
                    simulated_held(
                        old(props)[j],
                        props[j],
                        error_for(rotation_errors@, old(props)[j].id).unwrap(),
                        dt,
                    )
                } else {
                    props[j] == old(props)[j]
                },
        decreases n - i,
    {
        let p = props[i];
        let is_held = p.grab.is_some() && p.shadow.is_some();
        if is_held {
            match find_error(rotation_errors, p.id) {
                Some(delta_angles) => {
                    proof {
                        lemma_error_for_bounded(rotation_errors@, p.id);
                    }
                    let q = simulate_held(p, delta_angles, dt);
                    props.set(i, q);
                },
                None => {},
            }
        }
        i = i + 1;
    }
}

/// A rotation error found in the record list satisfies the list's bound.
proof fn lemma_error_for_bounded(errors: Seq<RotationError>, id: u64)
    requires
        forall|k: int|
            0 <= k < errors.len() ==> (#[trigger] errors[k].delta_angles).bounded(
                2 * FIX_LIMIT as int,
            ),
        error_for(errors, id).is_some(),
    ensures
        error_for(errors, id).unwrap().bounded(2 * FIX_LIMIT as int),
    decreases errors.len(),
{
    if errors.len() > 0 && errors[0].prop != id {
        assert(forall|k: int|
            0 <= k < errors.skip(1).len() ==> (#[trigger] errors.skip(1)[k].delta_angles).bounded(
                2 * FIX_LIMIT as int,
            ));
        lemma_error_for_bounded(errors.skip(1), id);
    }
}

/// Which actors are holding a prop right now: the pairs of actor id and
/// held prop id, in store order.
pub open spec fn holding_pairs(actors: Seq<Actor>, n: int) -> Seq<(u64, u64)>
    decreases n,
{
    if n <= 0 {
        Seq::empty()
    } else {
        holding_pairs(actors, n - 1) + match actors[n - 1].state {
            AvianPickupActorState::Holding(p) => seq![(actors[n - 1].id, p)],
            _ => Seq::empty(),
        }
    }
}

/// Report every actor that is holding a prop, with the prop it holds: the
/// per-step observation hook of the hold system.
pub fn hold(actors: &Vec<Actor>) -> (held_pairs: Vec<(u64, u64)>)
    ensures
        held_pairs@ == holding_pairs(actors@, actors@.len() as int),
{
    let n = actors.len();
    let mut out: Vec<(u64, u64)> = Vec::new();
    let mut i: usize = 0;
    while i < n
        invariant
            n == actors.len(),
            0 <= i <= n,
            out@ == holding_pairs(actors@, i as int),
        decreases n - i,
    {
        match actors[i].state {
            AvianPickupActorState::Holding(p) => {
                out.push((actors[i].id, p));
                proof {
                    assert(out@ =~= holding_pairs(actors@, i as int + 1));
                }
            },
            _ => {
                proof {
                    assert(out@ =~= holding_pairs(actors@, i as int + 1));
                }
            },
        }
        i = i + 1;
    }
    out
}

} // verus!
