//! Fixed-point arithmetic for the control core.
//!
//! The host's world is measured in floating point; this crate is not. Every
//! scalar here is an integer count of micro-units: one world unit is
//! [`SCALE`] fixed-point units. Vectors and quaternions carry their
//! components in the same encoding.

use vstd::prelude::*;

verus! {

/// Fixed-point units per world unit.
pub const SCALE: u64 = 1_000_000;

/// Magnitude cap on the fixed-point coordinates, velocities and authority
/// limits this crate computes with: one million world units. A machine
/// limit, not a rule of the mechanic: it keeps every intermediate product
/// within `i64`/`u128` range.
pub const FIX_LIMIT: i64 = 1_000_000_000_000;

/// The smaller of two integers.
pub open spec fn min_int(a: int, b: int) -> int {
    if a <= b {
        a
    } else {
        b
    }
}

/// Magnitude bound of an `i64`, as a spec value: `2^63`.
pub open spec fn i64_mag() -> int {
    9223372036854775808
}

/// Floor of the square root, defined recursively so that proofs can reason
/// about it directly.
pub open spec fn sqrt_nat(n: nat) -> nat
    decreases n,
{
    if n == 0 {
        0
    } else {
        let r = sqrt_nat((n - 1) as nat);
        if (r + 1) * (r + 1) <= n {
            r + 1
        } else {
            r
        }
    }
}

/// `sqrt_nat(n)` really is the floor of the square root of `n`.
pub proof fn lemma_sqrt_nat_bounds(n: nat)
    ensures
        sqrt_nat(n) * sqrt_nat(n) <= n,
        n < (sqrt_nat(n) + 1) * (sqrt_nat(n) + 1),
    decreases n,
{
    if n > 0 {
        let r = sqrt_nat((n - 1) as nat);
        lemma_sqrt_nat_bounds((n - 1) as nat);
        if (r + 1) * (r + 1) <= n {
            assert(sqrt_nat(n) == r + 1);
            assert((r + 2) * (r + 2) > n) by (nonlinear_arith)
                requires
                    n <= (r + 1) * (r + 1),
            ;
            assert(sqrt_nat(n) * sqrt_nat(n) <= n);
            assert(n < (sqrt_nat(n) + 1) * (sqrt_nat(n) + 1));
        } else {
            assert(sqrt_nat(n) == r);
            assert(sqrt_nat(n) * sqrt_nat(n) <= n);
            assert(n < (sqrt_nat(n) + 1) * (sqrt_nat(n) + 1));
        }
    } else {
        assert(sqrt_nat(0nat) == 0);
        assert(n < (sqrt_nat(n) + 1) * (sqrt_nat(n) + 1)) by (nonlinear_arith)
            requires
                n == 0,
                sqrt_nat(n) == 0,
        ;
    }
}

/// Any integer bracketed by the two square bounds is the floor square root.
pub proof fn lemma_sqrt_nat_unique(n: nat, r: nat)
    requires
        r * r <= n,
        n < (r + 1) * (r + 1),
    ensures
        r == sqrt_nat(n),
{
    let s = sqrt_nat(n);
    lemma_sqrt_nat_bounds(n);
    if r < s {
        assert((r + 1) * (r + 1) <= s * s) by (nonlinear_arith)
            requires
                r + 1 <= s,
        ;
    }
    if s < r {
        assert((s + 1) * (s + 1) <= r * r) by (nonlinear_arith)
            requires
                s + 1 <= r,
        ;
    }
}

/// Floor square root by bisection.
pub fn isqrt(n: u128) -> (r: u64)
    ensures
        r as nat == sqrt_nat(n as nat),
        (r as nat) * (r as nat) <= n as nat,
        (n as nat) < (r as nat + 1) * (r as nat + 1),
{
    let mut lo: u64 = 0;
    let mut hi: u64 = u64::MAX;
    proof {
        assert((hi as nat + 1) * (hi as nat + 1) > n as nat) by (nonlinear_arith)
            requires
                hi == u64::MAX,
                n <= u128::MAX,
        ;
    }
    while lo < hi
        invariant
            lo <= hi,
            (lo as nat) * (lo as nat) <= n as nat,
            (n as nat) < (hi as nat + 1) * (hi as nat + 1),
        decreases hi - lo,
    {
        let mid: u64 = lo + 1 + (hi - lo - 1) / 2;
        proof {
            assert((mid as int) * (mid as int) <= u128::MAX) by (nonlinear_arith)
                requires
                    mid <= u64::MAX,
            ;
        }
        let sq: u128 = (mid as u128) * (mid as u128);
        if sq <= n {
            lo = mid;
        } else {
            hi = mid - 1;
        }
    }
    proof {
        lemma_sqrt_nat_unique(n as nat, lo as nat);
    }
    lo
}

/// `a * b / d` with flooring division, computed without intermediate
/// overflow.
pub fn mul_div(a: u64, b: u64, d: u64) -> (r: u64)
    requires
        d > 0,
        (a as nat) * (b as nat) / (d as nat) <= u64::MAX as nat,
    ensures
        r as nat == (a as nat) * (b as nat) / (d as nat),
{
    proof {
        assert((a as int) * (b as int) <= u128::MAX) by (nonlinear_arith)
            requires
                a <= u64::MAX,
                b <= u64::MAX,
        ;
    }
    (((a as u128) * (b as u128)) / (d as u128)) as u64
}

/// Absolute value over mathematical integers.
pub open spec fn abs_int(c: int) -> int {
    if c >= 0 {
        c
    } else {
        -c
    }
}

/// Scaling of one signed component by the ratio `num / den`: the magnitude
/// is scaled with flooring division and the sign is kept.
pub open spec fn scale_comp_spec(c: int, num: int, den: int) -> int {
    if c >= 0 {
        (c * num) / den
    } else {
        -(((-c) * num) / den)
    }
}

/// The scaled component is no larger in magnitude than `|c| * num / den`.
pub proof fn lemma_scale_comp_abs(c: int, num: int, den: int)
    requires
        den > 0,
        num >= 0,
    ensures
        scale_comp_spec(c, num, den) <= abs_int(c) * num / den,
        -(abs_int(c) * num / den) <= scale_comp_spec(c, num, den),
{
    if c >= 0 {
        assert(c * num >= 0) by (nonlinear_arith)
            requires
                c >= 0,
                num >= 0,
        ;
        vstd::arithmetic::div_mod::lemma_div_pos_is_pos(c * num, den);
    } else {
        assert((-c) * num >= 0) by (nonlinear_arith)
            requires
                c < 0,
                num >= 0,
        ;
        vstd::arithmetic::div_mod::lemma_div_pos_is_pos((-c) * num, den);
    }
}

/// Executable counterpart of [`scale_comp_spec`].
pub fn scale_comp(c: i64, num: u64, den: u64) -> (r: i64)
    requires
        den > 0,
        abs_int(c as int) * (num as int) / (den as int) <= i64::MAX as int,
    ensures
        r as int == scale_comp_spec(c as int, num as int, den as int),
{
    let mag: u64 = if c >= 0 {
        c as u64
    } else {
        (-(c as i128)) as u64
    };
    proof {
        assert((mag as int) * (num as int) <= u128::MAX) by (nonlinear_arith)
            requires
                mag <= u64::MAX,
                num <= u64::MAX,
        ;
    }
    let scaled: u128 = ((mag as u128) * (num as u128)) / (den as u128);
    proof {
        lemma_scale_comp_abs(c as int, num as int, den as int);
    }
    if c >= 0 {
        scaled as i64
    } else {
        -(scaled as i64)
    }
}

/// A three-component vector of fixed-point coordinates.
#[derive(Clone, Copy, Debug, PartialEq, Eq, Structural)]
pub struct Vec3Fix {
    /// Fixed-point x coordinate.
    pub x: i64,
    /// Fixed-point y coordinate.
    pub y: i64,
    /// Fixed-point z coordinate.
    pub z: i64,
}

impl Vec3Fix {
    /// The zero vector.
    pub fn zero() -> (v: Vec3Fix)
        ensures
            v == (Vec3Fix { x: 0, y: 0, z: 0 }),
    {
        Vec3Fix { x: 0, y: 0, z: 0 }
    }

    /// Squared Euclidean norm, over mathematical integers.
    pub open spec fn norm_sq_spec(self) -> int {
        self.x * self.x + self.y * self.y + self.z * self.z
    }

    /// Floor of the Euclidean norm.
    pub open spec fn len_spec(self) -> nat {
        sqrt_nat(self.norm_sq_spec() as nat)
    }

    /// All components within `b` in magnitude.
    pub open spec fn bounded(self, b: int) -> bool {
        abs_int(self.x as int) <= b && abs_int(self.y as int) <= b && abs_int(self.z as int) <= b
    }
}

/// The square of a component equals the square of its absolute value, and is
/// bounded by the squared norm.
pub proof fn lemma_norm_sq_nonneg(v: Vec3Fix)
    ensures
        v.norm_sq_spec() >= 0,
        abs_int(v.x as int) * abs_int(v.x as int) <= v.norm_sq_spec(),
        abs_int(v.y as int) * abs_int(v.y as int) <= v.norm_sq_spec(),
        abs_int(v.z as int) * abs_int(v.z as int) <= v.norm_sq_spec(),
{
    lemma_abs_square(v.x as int);
    lemma_abs_square(v.y as int);
    lemma_abs_square(v.z as int);
}

/// `|a| * |a| == a * a`, and squares are non-negative.
pub proof fn lemma_abs_square(a: int)
    ensures
        abs_int(a) * abs_int(a) == a * a,
        a * a >= 0,
{
    if a >= 0 {
        assert(a * a >= 0) by (nonlinear_arith)
            requires
                a >= 0,
        ;
    } else {
        assert((-a) * (-a) == a * a && a * a >= 0) by (nonlinear_arith)
            requires
                a < 0,
        ;
    }
}

/// Each component is bounded in magnitude by the floor norm.
pub proof fn lemma_comp_le_len(v: Vec3Fix)
    ensures
        abs_int(v.x as int) <= v.len_spec(),
        abs_int(v.y as int) <= v.len_spec(),
        abs_int(v.z as int) <= v.len_spec(),
{
    lemma_norm_sq_nonneg(v);
    lemma_sqrt_nat_bounds(v.norm_sq_spec() as nat);
    let l = v.len_spec();
    if abs_int(v.x as int) > l {
        assert((l + 1) * (l + 1) <= abs_int(v.x as int) * abs_int(v.x as int)) by (nonlinear_arith)
            requires
                0 <= l + 1 <= abs_int(v.x as int),
        ;
    }
    if abs_int(v.y as int) > l {
        assert((l + 1) * (l + 1) <= abs_int(v.y as int) * abs_int(v.y as int)) by (nonlinear_arith)
            requires
                0 <= l + 1 <= abs_int(v.y as int),
        ;
    }
    if abs_int(v.z as int) > l {
        assert((l + 1) * (l + 1) <= abs_int(v.z as int) * abs_int(v.z as int)) by (nonlinear_arith)
            requires
                0 <= l + 1 <= abs_int(v.z as int),
        ;
    }
}

/// Executable squared norm. Fits in `u128` for any `i64` components.
pub fn norm_sq(v: Vec3Fix) -> (s: u128)
    ensures
        s as int == v.norm_sq_spec(),
{
    let ax: u64 = if v.x >= 0 {
        v.x as u64
    } else {
        (-(v.x as i128)) as u64
    };
    let ay: u64 = if v.y >= 0 {
        v.y as u64
    } else {
        (-(v.y as i128)) as u64
    };
    let az: u64 = if v.z >= 0 {
        v.z as u64
    } else {
        (-(v.z as i128)) as u64
    };
    proof {
        lemma_abs_square(v.x as int);
        lemma_abs_square(v.y as int);
        lemma_abs_square(v.z as int);
        assert((ax as int) * (ax as int) <= i64_mag() * i64_mag()) by (nonlinear_arith)
            requires
                0 <= ax as int <= i64_mag(),
        ;
        assert((ay as int) * (ay as int) <= i64_mag() * i64_mag()) by (nonlinear_arith)
            requires
                0 <= ay as int <= i64_mag(),
        ;
        assert((az as int) * (az as int) <= i64_mag() * i64_mag()) by (nonlinear_arith)
            requires
                0 <= az as int <= i64_mag(),
        ;
        assert(3 * (i64_mag() * i64_mag()) <= u128::MAX) by (nonlinear_arith);
    }
    (ax as u128) * (ax as u128) + (ay as u128) * (ay as u128) + (az as u128) * (az as u128)
}

/// Executable floor norm.
pub fn norm(v: Vec3Fix) -> (l: u64)
    ensures
        l as nat == v.len_spec(),
{
    let s = norm_sq(v);
    proof {
        lemma_norm_sq_nonneg(v);
    }
    isqrt(s)
}

/// Norm bounds from component bounds: a vector with components within `b`
/// has squared norm at most `3 b^2` and floor norm below `2 b`.
pub proof fn lemma_len_le(v: Vec3Fix, b: int)
    requires
        v.bounded(b),
        b >= 0,
    ensures
        v.norm_sq_spec() <= 3 * (b * b),
        v.len_spec() <= 2 * b,
{
    lemma_norm_sq_nonneg(v);
    lemma_abs_square(v.x as int);
    lemma_abs_square(v.y as int);
    lemma_abs_square(v.z as int);
    assert(v.x * v.x <= b * b) by (nonlinear_arith)
        requires
            abs_int(v.x as int) <= b,
            0 <= b,
            abs_int(v.x as int) * abs_int(v.x as int) == v.x * v.x,
    ;
    assert(v.y * v.y <= b * b) by (nonlinear_arith)
        requires
            abs_int(v.y as int) <= b,
            0 <= b,
            abs_int(v.y as int) * abs_int(v.y as int) == v.y * v.y,
    ;
    assert(v.z * v.z <= b * b) by (nonlinear_arith)
        requires
            abs_int(v.z as int) <= b,
            0 <= b,
            abs_int(v.z as int) * abs_int(v.z as int) == v.z * v.z,
    ;
    let l = v.len_spec();
    lemma_sqrt_nat_bounds(v.norm_sq_spec() as nat);
    if l > 2 * b {
        assert((2 * b + 1) * (2 * b + 1) > 3 * (b * b)) by (nonlinear_arith)
            requires
                b >= 0,
        ;
        assert((2 * b + 1) * (2 * b + 1) <= l * l) by (nonlinear_arith)
            requires
                0 <= 2 * b + 1 <= l,
        ;
    }
}

/// With `num <= den`, scaling shrinks a magnitude: `0 <= (c*num)/den <= c`.
pub proof fn lemma_mul_div_shrinks(c: int, num: int, den: int)
    requires
        0 <= c,
        0 <= num <= den,
        0 < den,
    ensures
        0 <= (c * num) / den <= c,
{
    vstd::arithmetic::mul::lemma_mul_inequality(num, den, c);
    vstd::arithmetic::mul::lemma_mul_is_commutative(num, c);
    vstd::arithmetic::mul::lemma_mul_is_commutative(den, c);
    vstd::arithmetic::div_mod::lemma_div_is_ordered(c * num, c * den, den);
    vstd::arithmetic::div_mod::lemma_div_multiples_vanish(c, den);
    vstd::arithmetic::div_mod::lemma_div_pos_is_pos(c * num, den);
    assert(c * num >= 0) by (nonlinear_arith)
        requires
            c >= 0,
            num >= 0,
    ;
}

/// A product-quotient is monotone in bounds on both factors.
pub proof fn lemma_mul_div_bound(c: int, num: int, den: int, cb: int, nb: int)
    requires
        0 <= c <= cb,
        0 <= num <= nb,
        0 < den,
    ensures
        0 <= (c * num) / den <= (cb * nb) / den,
{
    assert(c * num <= cb * nb) by (nonlinear_arith)
        requires
            0 <= c <= cb,
            0 <= num <= nb,
    ;
    assert(c * num >= 0) by (nonlinear_arith)
        requires
            c >= 0,
            num >= 0,
    ;
    vstd::arithmetic::div_mod::lemma_div_is_ordered(c * num, cb * nb, den);
    vstd::arithmetic::div_mod::lemma_div_pos_is_pos(c * num, den);
}

/// Truncating division of a signed value by a positive one: the magnitude is
/// divided with flooring and the sign is kept. This is the rounding the
/// executable code uses throughout.
pub open spec fn div_trunc(a: int, d: int) -> int {
    if a >= 0 {
        a / d
    } else {
        -((-a) / d)
    }
}

/// Componentwise difference of two vectors, exact for bounded inputs.
pub open spec fn vec_sub_spec(a: Vec3Fix, b: Vec3Fix) -> Vec3Fix {
    Vec3Fix {
        x: (a.x - b.x) as i64,
        y: (a.y - b.y) as i64,
        z: (a.z - b.z) as i64,
    }
}

/// Executable vector difference.
pub fn vec_sub(a: Vec3Fix, b: Vec3Fix) -> (r: Vec3Fix)
    requires
        a.bounded(FIX_LIMIT as int),
        b.bounded(FIX_LIMIT as int),
    ensures
        r == vec_sub_spec(a, b),
        r.x as int == a.x - b.x,
        r.y as int == a.y - b.y,
        r.z as int == a.z - b.z,
        r.bounded(2 * FIX_LIMIT as int),
{
    Vec3Fix { x: a.x - b.x, y: a.y - b.y, z: a.z - b.z }
}

/// A rotation as a fixed-point quaternion. A unit rotation of the host's
/// world has components of magnitude at most [`SCALE`].
#[derive(Clone, Copy, Debug, PartialEq, Eq, Structural)]
pub struct QuatFix {
    /// Scalar part.
    pub w: i64,
    /// First imaginary component.
    pub x: i64,
    /// Second imaginary component.
    pub y: i64,
    /// Third imaginary component.
    pub z: i64,
}

impl QuatFix {
    /// The identity rotation.
    pub fn identity() -> (q: QuatFix)
        ensures
            q == (QuatFix { w: SCALE as i64, x: 0, y: 0, z: 0 }),
    {
        QuatFix { w: SCALE as i64, x: 0, y: 0, z: 0 }
    }

    /// All components within `b` in magnitude.
    pub open spec fn bounded(self, b: int) -> bool {
        abs_int(self.w as int) <= b && abs_int(self.x as int) <= b && abs_int(self.y as int) <= b
            && abs_int(self.z as int) <= b
    }

    /// Executable conjugate, which inverts a unit rotation.
    pub fn conj(self) -> (q: QuatFix)
        requires
            self.bounded(4 * SCALE),
        ensures
            q.w == self.w,
            q.x as int == -(self.x as int),
            q.y as int == -(self.y as int),
            q.z as int == -(self.z as int),
            q.bounded(4 * SCALE),
    {
        QuatFix { w: self.w, x: -self.x, y: -self.y, z: -self.z }
    }
}

/// The conjugate of a quaternion, which inverts a unit rotation. Exact for
/// bounded rotations.
pub open spec fn quat_conj_spec(q: QuatFix) -> QuatFix {
    QuatFix { w: q.w, x: (-q.x) as i64, y: (-q.y) as i64, z: (-q.z) as i64 }
}

/// The Hamilton product as one quaternion value; the components are exact
/// for bounded rotations.
pub open spec fn quat_mul_of(a: QuatFix, b: QuatFix) -> QuatFix {
    QuatFix {
        w: quat_mul_w(a, b) as i64,
        x: quat_mul_x(a, b) as i64,
        y: quat_mul_y(a, b) as i64,
        z: quat_mul_z(a, b) as i64,
    }
}

/// Scalar part of the Hamilton product of two fixed-point quaternions,
/// rescaled by [`SCALE`] with truncating division.
pub open spec fn quat_mul_w(a: QuatFix, b: QuatFix) -> int {
    div_trunc(a.w * b.w - a.x * b.x - a.y * b.y - a.z * b.z, SCALE as int)
}

/// First imaginary part of the Hamilton product.
pub open spec fn quat_mul_x(a: QuatFix, b: QuatFix) -> int {
    div_trunc(a.w * b.x + a.x * b.w + a.y * b.z - a.z * b.y, SCALE as int)
}

/// Second imaginary part of the Hamilton product.
pub open spec fn quat_mul_y(a: QuatFix, b: QuatFix) -> int {
    div_trunc(a.w * b.y - a.x * b.z + a.y * b.w + a.z * b.x, SCALE as int)
}

/// Third imaginary part of the Hamilton product.
pub open spec fn quat_mul_z(a: QuatFix, b: QuatFix) -> int {
    div_trunc(a.w * b.z + a.x * b.y - a.y * b.x + a.z * b.w, SCALE as int)
}

/// One signed term `a * b`, for quaternion products of bounded rotations.
fn mul_i64(a: i64, b: i64) -> (r: i128)
    requires
        abs_int(a as int) <= 4 * SCALE,
        abs_int(b as int) <= 4 * SCALE,
    ensures
        r as int == (a as int) * (b as int),
        abs_int(r as int) <= 16 * (SCALE as int) * (SCALE as int),
{
    proof {
        assert(abs_int((a as int) * (b as int)) <= 16 * (SCALE as int) * (SCALE as int))
            by (nonlinear_arith)
            requires
                abs_int(a as int) <= 4 * (SCALE as int),
                abs_int(b as int) <= 4 * (SCALE as int),
                SCALE == 1_000_000,
        ;
    }
    (a as i128) * (b as i128)
}

/// Truncating rescale of one accumulated quaternion term by [`SCALE`].
fn rescale_term(t: i128) -> (r: i64)
    requires
        abs_int(t as int) <= 64 * (SCALE as int) * (SCALE as int),
    ensures
        r as int == div_trunc(t as int, SCALE as int),
        abs_int(r as int) <= 64 * SCALE,
{
    proof {
        vstd::arithmetic::div_mod::lemma_div_pos_is_pos(abs_int(t as int), SCALE as int);
        vstd::arithmetic::div_mod::lemma_div_is_ordered(
            abs_int(t as int),
            64 * (SCALE as int) * (SCALE as int),
            SCALE as int,
        );
        assert(64 * (SCALE as int) * (SCALE as int) / (SCALE as int) == 64 * (SCALE as int))
            by (nonlinear_arith)
            requires
                SCALE == 1_000_000,
        ;
    }
    if t >= 0 {
        ((t as u128) / (SCALE as u128)) as i64
    } else {
        -(((-t) as u128 / (SCALE as u128)) as i64)
    }
}

/// Executable Hamilton product.
pub fn quat_mul(a: QuatFix, b: QuatFix) -> (q: QuatFix)
    requires
        a.bounded(4 * SCALE),
        b.bounded(4 * SCALE),
    ensures
        q.w as int == quat_mul_w(a, b),
        q.x as int == quat_mul_x(a, b),
        q.y as int == quat_mul_y(a, b),
        q.z as int == quat_mul_z(a, b),
        q.bounded(64 * SCALE),
{
    let tw: i128 = mul_i64(a.w, b.w) - mul_i64(a.x, b.x) - mul_i64(a.y, b.y) - mul_i64(a.z, b.z);
    let tx: i128 = mul_i64(a.w, b.x) + mul_i64(a.x, b.w) + mul_i64(a.y, b.z) - mul_i64(a.z, b.y);
    let ty: i128 = mul_i64(a.w, b.y) - mul_i64(a.x, b.z) + mul_i64(a.y, b.w) + mul_i64(a.z, b.x);
    let tz: i128 = mul_i64(a.w, b.z) + mul_i64(a.x, b.y) - mul_i64(a.y, b.x) + mul_i64(a.z, b.w);
    QuatFix {
        w: rescale_term(tw),
        x: rescale_term(tx),
        y: rescale_term(ty),
        z: rescale_term(tz),
    }
}

} // verus!
