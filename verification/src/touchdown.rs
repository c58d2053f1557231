//! The touchdown sensor of the ground-station mode. The flight software's own Landed check
//! (estimated altitude) cannot trigger in the sim, because positions are those of the
//! centre of mass; the sim knows where the legs are, so it decides touchdown itself: the
//! bottom of the vehicle (centre of mass plus the attitude-rotated offset to the ground
//! contact point) is at most 1 mm above the ground.
//!
//! Lengths are fixed-point micrometres. The attitude is a quaternion in any fixed-point
//! scale; it stands for the unit quaternion `q / |q|`, and the test is evaluated exactly,
//! scaled by `|q|²`, so no rounding enters it.

use vstd::prelude::*;

verus! {

/// How far above the ground the bottom may be and still count as on the ground: 1 mm.
pub const TOUCHDOWN_TOLERANCE_UM: i32 = 1000;

/// A vector in micrometres (world frame for positions, body frame for offsets).
#[derive(Clone, Copy, Debug, PartialEq, Eq, Structural)]
pub struct Vec3 {
    pub x: i32,
    pub y: i32,
    pub z: i32,
}

/// An attitude quaternion `w + x i + y j + z k` (body to world), in fixed point.
#[derive(Clone, Copy, Debug, PartialEq, Eq, Structural)]
pub struct Quat {
    pub w: i32,
    pub x: i32,
    pub y: i32,
    pub z: i32,
}

/// What the touchdown test reads of the rocket.
#[derive(Clone, Copy, Debug, PartialEq, Eq, Structural)]
pub struct RocketPose {
    /// Position of the centre of mass, world frame.
    pub position: Vec3,
    /// Attitude, body to world.
    pub attitude: Quat,
    /// Offset from the centre of mass to the ground contact point, body frame.
    pub com_to_ground: Vec3,
}

pub open spec fn norm_sq(q: Quat) -> int {
    q.w * q.w + q.x * q.x + q.y * q.y + q.z * q.z
}

/// World z of the body vector `v` rotated by `q / |q|`, times `|q|²` (third row of the
/// rotation matrix of a quaternion, in homogeneous form).
pub open spec fn rotated_z_scaled(q: Quat, v: Vec3) -> int {
    2 * (q.x * q.z - q.w * q.y) * v.x + 2 * (q.y * q.z + q.w * q.x) * v.y + (q.w * q.w - q.x
        * q.x - q.y * q.y + q.z * q.z) * v.z
}

/// Height of the vehicle's bottom above the ground, in micrometres, times `|q|²`.
pub open spec fn bottom_height_scaled(r: RocketPose) -> int {
    r.position.z * norm_sq(r.attitude) + rotated_z_scaled(r.attitude, r.com_to_ground)
}

pub open spec fn spec_has_touched_down(r: RocketPose) -> bool {
    bottom_height_scaled(r) <= TOUCHDOWN_TOLERANCE_UM * norm_sq(r.attitude)
}

proof fn lemma_mul_bounds(a: int, b: int, ba: int, bb: int)
    by (nonlinear_arith)
    requires
        -ba <= a <= ba,
        -bb <= b <= bb,
        0 <= ba,
        0 <= bb,
    ensures
        -(ba * bb) <= a * b <= ba * bb,
{
}

proof fn lemma_square_nonneg(a: int)
    by (nonlinear_arith)
    ensures
        0 <= a * a,
{
}

/// Whether the legs are on the ground: the bottom of the vehicle is at most
/// `TOUCHDOWN_TOLERANCE_UM` above the ground.
pub fn has_touched_down(rocket: &RocketPose) -> (res: bool)
    requires
        norm_sq(rocket.attitude) > 0,
    ensures
        res == spec_has_touched_down(*rocket),
{
    let q = rocket.attitude;
    let c = rocket.com_to_ground;
    let (w, x, y, z) = (q.w as i128, q.x as i128, q.y as i128, q.z as i128);
    let (cx, cy, cz) = (c.x as i128, c.y as i128, c.z as i128);
    let pz = rocket.position.z as i128;
    let ghost m: int = 0x8000_0000int;
    proof {
        lemma_mul_bounds(x as int, z as int, m, m);
        lemma_mul_bounds(w as int, y as int, m, m);
        lemma_mul_bounds(y as int, z as int, m, m);
        lemma_mul_bounds(w as int, x as int, m, m);
        lemma_mul_bounds(w as int, w as int, m, m);
        lemma_mul_bounds(x as int, x as int, m, m);
        lemma_mul_bounds(y as int, y as int, m, m);
        lemma_mul_bounds(z as int, z as int, m, m);
        lemma_square_nonneg(w as int);
        lemma_square_nonneg(x as int);
        lemma_square_nonneg(y as int);
        lemma_square_nonneg(z as int);
    }
    let (ww, xx, yy, zz) = (w * w, x * x, y * y, z * z);
    let a = 2 * (x * z - w * y);
    let b = 2 * (y * z + w * x);
    let d = ww - xx - yy + zz;
    let n = ww + xx + yy + zz;
    let ghost big: int = 0x1_0000_0000_0000_0000int;
    proof {
        lemma_mul_bounds(a as int, cx as int, big, m);
        lemma_mul_bounds(b as int, cy as int, big, m);
        lemma_mul_bounds(d as int, cz as int, big, m);
        lemma_mul_bounds(pz as int, n as int, m, big);
        lemma_mul_bounds(1000, n as int, 1000, big);
    }
    let lhs = pz * n + (a * cx + b * cy + d * cz);
    lhs <= (TOUCHDOWN_TOLERANCE_UM as i128) * n
}

/// A vehicle standing upright (attitude a pure rotation about nothing: `w ≠ 0`, no vector
/// part) with its bottom at or below the tolerance has touched down, and one whose bottom
/// is above it has not; in particular a vehicle placed on the pad (centre of mass at the
/// height of its contact offset, bottom at z = 0) counts as on the ground.
pub proof fn lemma_upright_touchdown(r: RocketPose)
    requires
        r.attitude.w != 0,
        r.attitude.x == 0,
        r.attitude.y == 0,
        r.attitude.z == 0,
    ensures
        spec_has_touched_down(r) <==> r.position.z + r.com_to_ground.z
            <= TOUCHDOWN_TOLERANCE_UM,
{
    let w = r.attitude.w as int;
    let h = r.position.z + r.com_to_ground.z;
    let q = r.attitude;
    let c = r.com_to_ground;
    assert(norm_sq(q) == w * w);
    assert(rotated_z_scaled(q, c) == (w * w) * c.z) by (nonlinear_arith)
        requires
            q.x == 0,
            q.y == 0,
            q.z == 0,
            w == q.w,
    ;
    assert(bottom_height_scaled(r) == h * (w * w)) by (nonlinear_arith)
        requires
            bottom_height_scaled(r) == r.position.z * (w * w) + (w * w) * c.z,
            h == r.position.z + c.z,
    ;
    assert(w * w > 0) by (nonlinear_arith)
        requires
            w != 0,
    ;
    assert((h * (w * w) <= TOUCHDOWN_TOLERANCE_UM * (w * w)) <==> (h <= TOUCHDOWN_TOLERANCE_UM))
        by (nonlinear_arith)
        requires
            w * w > 0,
    ;
}

/// Lowering the vehicle (same attitude and offset, centre of mass no higher) keeps it on
/// the ground.
pub proof fn lemma_lower_stays_down(r: RocketPose, lower: RocketPose)
    requires
        norm_sq(r.attitude) > 0,
        spec_has_touched_down(r),
        lower.attitude == r.attitude,
        lower.com_to_ground == r.com_to_ground,
        lower.position.z <= r.position.z,
    ensures
        spec_has_touched_down(lower),
{
    let n = norm_sq(r.attitude);
    assert(lower.position.z * n <= r.position.z * n) by (nonlinear_arith)
        requires
            lower.position.z <= r.position.z,
            n > 0,
    ;
}

/// A quaternion with integer components (w, x, y, z), for stating rotations.
pub struct QuatInt {
    pub w: int,
    pub x: int,
    pub y: int,
    pub z: int,
}

/// The Hamilton product `a ⊗ b`.
pub open spec fn hamilton(a: QuatInt, b: QuatInt) -> QuatInt {
    QuatInt {
        w: a.w * b.w - a.x * b.x - a.y * b.y - a.z * b.z,
        x: a.w * b.x + a.x * b.w + a.y * b.z - a.z * b.y,
        y: a.w * b.y - a.x * b.z + a.y * b.w + a.z * b.x,
        z: a.w * b.z + a.x * b.y - a.y * b.x + a.z * b.w,
    }
}

pub open spec fn as_quat(q: Quat) -> QuatInt {
    QuatInt { w: q.w as int, x: q.x as int, y: q.y as int, z: q.z as int }
}

pub open spec fn conjugate(q: Quat) -> QuatInt {
    QuatInt { w: q.w as int, x: -q.x, y: -q.y, z: -q.z }
}

pub open spec fn pure(v: Vec3) -> QuatInt {
    QuatInt { w: 0, x: v.x as int, y: v.y as int, z: v.z as int }
}

/// The body vector `v` turned into the world frame by the attitude: `q ⊗ v ⊗ q̄`, which is
/// `|q|²` times the rotation of `v` by the unit quaternion `q / |q|`.
pub open spec fn rotate_scaled(q: Quat, v: Vec3) -> QuatInt {
    hamilton(hamilton(as_quat(q), pure(v)), conjugate(q))
}

proof fn lemma_rotation_z_identity(q: Quat, v: Vec3)
    ensures
        rotate_scaled(q, v).z == rotated_z_scaled(q, v),
{
    let (w, x, y, z) = (q.w as int, q.x as int, q.y as int, q.z as int);
    let (vx, vy, vz) = (v.x as int, v.y as int, v.z as int);
    let p = hamilton(as_quat(q), pure(v));
    let pw = -(x * vx) - y * vy - z * vz;
    let px = w * vx + y * vz - z * vy;
    let py = w * vy - x * vz + z * vx;
    let pz = w * vz + x * vy - y * vx;
    assert(p.w == pw) by (nonlinear_arith)
        requires
            p.w == w * 0 - x * vx - y * vy - z * vz,
            pw == -(x * vx) - y * vy - z * vz,
    ;
    assert(p.x == px) by (nonlinear_arith)
        requires
            p.x == w * vx + x * 0 + y * vz - z * vy,
            px == w * vx + y * vz - z * vy,
    ;
    assert(p.y == py) by (nonlinear_arith)
        requires
            p.y == w * vy - x * vz + y * 0 + z * vx,
            py == w * vy - x * vz + z * vx,
    ;
    assert(p.z == pz) by (nonlinear_arith)
        requires
            p.z == w * vz + x * vy - y * vx + z * 0,
            pz == w * vz + x * vy - y * vx,
    ;
    let r = rotate_scaled(q, v);
    assert(r.z == pw * (-z) + px * (-y) - py * (-x) + pz * w);
    // pz * w
    lemma_sum_sum_diff_times(w * vz, x * vy, y * vx, w);
    lemma_swap(w, vz, w);
    lemma_swap(x, vy, w);
    lemma_swap(y, vx, w);
    lemma_comm(x, w);
    lemma_comm(y, w);
    // pw * (-z)
    lemma_neg_sum_times_neg(x * vx, y * vy, z * vz, z);
    lemma_swap(x, vx, z);
    lemma_swap(y, vy, z);
    lemma_swap(z, vz, z);
    // px * (-y)
    lemma_sum_diff_times_neg(w * vx, y * vz, z * vy, y);
    lemma_swap(w, vx, y);
    lemma_swap(y, vz, y);
    lemma_swap(z, vy, y);
    lemma_comm(z, y);
    // py * (-x)
    lemma_diff_sum_times_neg(w * vy, x * vz, z * vx, x);
    lemma_swap(w, vy, x);
    lemma_swap(x, vz, x);
    lemma_swap(z, vx, x);
    lemma_comm(z, x);
    // the matrix form
    lemma_two_diff_times(x * z, w * y, vx);
    lemma_two_sum_times(y * z, w * x, vy);
    lemma_four_times(w * w, x * x, y * y, z * z, vz);
}

proof fn lemma_swap(a: int, b: int, c: int)
    by (nonlinear_arith)
    ensures
        (a * b) * c == (a * c) * b,
{
}

proof fn lemma_comm(a: int, b: int)
    by (nonlinear_arith)
    ensures
        a * b == b * a,
{
}

proof fn lemma_sum_sum_diff_times(a: int, b: int, c: int, k: int)
    by (nonlinear_arith)
    ensures
        (a + b - c) * k == a * k + b * k - c * k,
{
}

proof fn lemma_neg_sum_times_neg(a: int, b: int, c: int, k: int)
    by (nonlinear_arith)
    ensures
        (-a - b - c) * (-k) == a * k + b * k + c * k,
{
}

proof fn lemma_sum_diff_times_neg(a: int, b: int, c: int, k: int)
    by (nonlinear_arith)
    ensures
        (a + b - c) * (-k) == -(a * k) - b * k + c * k,
{
}

proof fn lemma_diff_sum_times_neg(a: int, b: int, c: int, k: int)
    by (nonlinear_arith)
    ensures
        (a - b + c) * (-k) == -(a * k) + b * k - c * k,
{
}

proof fn lemma_two_diff_times(a: int, b: int, k: int)
    by (nonlinear_arith)
    ensures
        2 * (a - b) * k == 2 * (a * k) - 2 * (b * k),
{
}

proof fn lemma_two_sum_times(a: int, b: int, k: int)
    by (nonlinear_arith)
    ensures
        2 * (a + b) * k == 2 * (a * k) + 2 * (b * k),
{
}

proof fn lemma_four_times(a: int, b: int, c: int, d: int, k: int)
    by (nonlinear_arith)
    ensures
        (a - b - c + d) * k == a * k - b * k - c * k + d * k,
{
}

/// The touchdown test is the textbook one: the bottom is the centre of mass plus the
/// contact offset rotated into the world frame (`q ⊗ v ⊗ q̄`, scaled by `|q|²`), and the
/// vehicle has touched down when that point is at most `TOUCHDOWN_TOLERANCE_UM` high.
pub proof fn lemma_touchdown_uses_rotated_offset(r: RocketPose)
    ensures
        rotated_z_scaled(r.attitude, r.com_to_ground) == rotate_scaled(
            r.attitude,
            r.com_to_ground,
        ).z,
        spec_has_touched_down(r) <==> r.position.z * norm_sq(r.attitude) + rotate_scaled(
            r.attitude,
            r.com_to_ground,
        ).z <= TOUCHDOWN_TOLERANCE_UM * norm_sq(r.attitude),
{
    lemma_rotation_z_identity(r.attitude, r.com_to_ground);
}

/// Turning the vehicle about its own vertical axis (attitude `w + z k`, any non-zero scale)
/// leaves a vertical contact offset vertical: the vehicle has touched down exactly when it
/// would upright, i.e. when the centre-of-mass height plus the offset is at most the
/// tolerance. Horizontal offsets do not move the bottom up or down under such a turn.
pub proof fn lemma_yaw_does_not_matter(r: RocketPose)
    requires
        r.attitude.x == 0,
        r.attitude.y == 0,
        r.attitude.w * r.attitude.w + r.attitude.z * r.attitude.z > 0,
    ensures
        spec_has_touched_down(r) <==> r.position.z + r.com_to_ground.z <= TOUCHDOWN_TOLERANCE_UM,
{
    let q = r.attitude;
    let c = r.com_to_ground;
    let n = (q.w * q.w + q.z * q.z) as int;
    let h = r.position.z + c.z;
    assert(norm_sq(q) == n);
    assert(rotated_z_scaled(q, c) == n * c.z) by (nonlinear_arith)
        requires
            q.x == 0,
            q.y == 0,
            n == q.w * q.w + q.z * q.z,
    ;
    assert(bottom_height_scaled(r) == h * n) by (nonlinear_arith)
        requires
            bottom_height_scaled(r) == r.position.z * n + n * c.z,
            h == r.position.z + c.z,
    ;
    assert((h * n <= TOUCHDOWN_TOLERANCE_UM * n) <==> (h <= TOUCHDOWN_TOLERANCE_UM))
        by (nonlinear_arith)
        requires
            n > 0,
    ;
}

/// Turned upside down (half a turn about a horizontal body axis, attitude `x i + y j`), the
/// contact offset points the other way: the bottom is at the centre-of-mass height minus
/// the offset's vertical component.
pub proof fn lemma_upside_down(r: RocketPose)
    requires
        r.attitude.w == 0,
        r.attitude.z == 0,
        r.attitude.x * r.attitude.x + r.attitude.y * r.attitude.y > 0,
        r.com_to_ground.x == 0,
        r.com_to_ground.y == 0,
    ensures
        spec_has_touched_down(r) <==> r.position.z - r.com_to_ground.z <= TOUCHDOWN_TOLERANCE_UM,
{
    let q = r.attitude;
    let c = r.com_to_ground;
    let n = (q.x * q.x + q.y * q.y) as int;
    let h = r.position.z - c.z;
    assert(norm_sq(q) == n);
    assert(rotated_z_scaled(q, c) == -(n * c.z)) by (nonlinear_arith)
        requires
            q.w == 0,
            q.z == 0,
            c.x == 0,
            c.y == 0,
            n == q.x * q.x + q.y * q.y,
    ;
    assert(bottom_height_scaled(r) == h * n) by (nonlinear_arith)
        requires
            bottom_height_scaled(r) == r.position.z * n - n * c.z,
            h == r.position.z - c.z,
    ;
    assert((h * n <= TOUCHDOWN_TOLERANCE_UM * n) <==> (h <= TOUCHDOWN_TOLERANCE_UM))
        by (nonlinear_arith)
        requires
            n > 0,
    ;
}

} // verus!
