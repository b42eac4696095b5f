//! Fixed-point vector and transform arithmetic for the scene graph.
//!
//! Scalars are signed 64-bit fixed-point numbers with [`FP_ONE`] as the unit,
//! so `1.5` is stored as `1_500_000`. Every operation saturates at
//! [`FP_LIMIT`], which keeps all ops total: no input can make them overflow
//! or panic, and world transforms stay well defined at any graph depth.

use vstd::prelude::*;
use vstd::arithmetic::div_mod::lemma_div_multiples_vanish;

verus! {

/// The fixed-point representation of `1.0`.
pub const FP_ONE: i64 = 1_000_000;

/// Largest magnitude a fixed-point scalar may take; operations saturate here.
pub const FP_LIMIT: i64 = 1_000_000_000_000_000;

/// Saturate an unbounded integer into `[-FP_LIMIT, FP_LIMIT]`.
pub open spec fn fp_clamp(x: int) -> int {
    if x > FP_LIMIT as int {
        FP_LIMIT as int
    } else if x < -(FP_LIMIT as int) {
        -(FP_LIMIT as int)
    } else {
        x
    }
}

/// The magnitude of an unbounded integer.
pub open spec fn fp_abs(x: int) -> int {
    if x < 0 {
        -x
    } else {
        x
    }
}

/// Division truncating toward zero, as machine division does.
pub open spec fn tdiv(a: int, d: int) -> int
    recommends
        d != 0,
{
    if (a >= 0) == (d > 0) {
        fp_abs(a) / fp_abs(d)
    } else {
        -(fp_abs(a) / fp_abs(d))
    }
}

/// Saturating fixed-point addition.
pub open spec fn fp_add(a: int, b: int) -> int {
    fp_clamp(a + b)
}

/// Saturating fixed-point subtraction.
pub open spec fn fp_sub(a: int, b: int) -> int {
    fp_clamp(a - b)
}

/// Saturating fixed-point negation.
pub open spec fn fp_neg(a: int) -> int {
    fp_clamp(-a)
}

/// Saturating fixed-point multiplication: the exact product rescaled by
/// `FP_ONE`, truncated toward zero, then clamped.
pub open spec fn fp_mul(a: int, b: int) -> int {
    fp_clamp(tdiv(a * b, FP_ONE as int))
}

/// Saturating fixed-point division.
pub open spec fn fp_div(a: int, b: int) -> int
    recommends
        b != 0,
{
    fp_clamp(tdiv(a * (FP_ONE as int), b))
}

/// The magnitudes of two factors multiply to the magnitude of the product.
proof fn lemma_abs_mul(a: int, b: int)
    ensures
        fp_abs(a) * fp_abs(b) == fp_abs(a * b),
{
    if a >= 0 && b >= 0 {
        assert(a * b >= 0) by (nonlinear_arith)
            requires
                a >= 0,
                b >= 0,
        ;
    } else if a >= 0 && b < 0 {
        assert(a * b <= 0 && a * (-b) == -(a * b)) by (nonlinear_arith)
            requires
                a >= 0,
                b < 0,
        ;
    } else if a < 0 && b >= 0 {
        assert(a * b <= 0 && (-a) * b == -(a * b)) by (nonlinear_arith)
            requires
                a < 0,
                b >= 0,
        ;
    } else {
        assert(a * b >= 0 && (-a) * (-b) == a * b) by (nonlinear_arith)
            requires
                a < 0,
                b < 0,
        ;
    }
}

/// The magnitude of a fixed-point scalar, widened for intermediate products.
fn abs_u128(a: i64) -> (r: u128)
    ensures
        r as int == fp_abs(a as int),
{
    if a >= 0 {
        a as u128
    } else {
        (-(a as i128)) as u128
    }
}

/// Saturate a wide intermediate back into a fixed-point scalar.
fn clamp_i128(x: i128) -> (r: i64)
    ensures
        r as int == fp_clamp(x as int),
{
    if x > FP_LIMIT as i128 {
        FP_LIMIT
    } else if x < -(FP_LIMIT as i128) {
        -FP_LIMIT
    } else {
        x as i64
    }
}

/// Saturating fixed-point addition.
pub fn fadd(a: i64, b: i64) -> (r: i64)
    ensures
        r as int == fp_add(a as int, b as int),
{
    clamp_i128(a as i128 + b as i128)
}

/// Saturating fixed-point subtraction.
pub fn fsub(a: i64, b: i64) -> (r: i64)
    ensures
        r as int == fp_sub(a as int, b as int),
{
    clamp_i128(a as i128 - b as i128)
}

/// Saturating fixed-point negation.
pub fn fneg(a: i64) -> (r: i64)
    ensures
        r as int == fp_neg(a as int),
{
    clamp_i128(-(a as i128))
}

/// Saturating fixed-point multiplication.
pub fn fmul(a: i64, b: i64) -> (r: i64)
    ensures
        r as int == fp_mul(a as int, b as int),
{
    let neg: bool = (a < 0) != (b < 0);
    let ma = abs_u128(a);
    let mb = abs_u128(b);
    proof {
        assert(ma * mb <= 0x8000_0000_0000_0000u128 * 0x8000_0000_0000_0000u128)
            by (nonlinear_arith)
            requires
                ma <= 0x8000_0000_0000_0000u128,
                mb <= 0x8000_0000_0000_0000u128,
        ;
        lemma_abs_mul(a as int, b as int);
    }
    let p = ma * mb;
    let q = p / (FP_ONE as u128);
    let m = if q > FP_LIMIT as u128 {
        FP_LIMIT as u128
    } else {
        q
    };
    let mi = m as i64;
    proof {
        assert(q as int == fp_abs((a as int) * (b as int)) / (FP_ONE as int));
        if neg {
            assert((a as int) * (b as int) <= 0) by (nonlinear_arith)
                requires
                    ((a as int) < 0) != ((b as int) < 0),
            ;
        } else {
            assert((a as int) * (b as int) >= 0) by (nonlinear_arith)
                requires
                    ((a as int) < 0) == ((b as int) < 0),
            ;
        }
    }
    if neg {
        -mi
    } else {
        mi
    }
}

/// Saturating fixed-point division.
pub fn fdiv(a: i64, b: i64) -> (r: i64)
    requires
        b != 0,
    ensures
        r as int == fp_div(a as int, b as int),
{
    let neg: bool = (a < 0) != (b < 0);
    let ma = abs_u128(a);
    let mb = abs_u128(b);
    proof {
        assert(ma * (FP_ONE as u128) <= 0x8000_0000_0000_0000u128 * 1_000_000u128)
            by (nonlinear_arith)
            requires
                ma <= 0x8000_0000_0000_0000u128,
        ;
        lemma_abs_mul(a as int, FP_ONE as int);
    }
    let p = ma * (FP_ONE as u128);
    let q = p / mb;
    let m = if q > FP_LIMIT as u128 {
        FP_LIMIT as u128
    } else {
        q
    };
    let mi = m as i64;
    proof {
        assert(fp_abs((a as int) * (FP_ONE as int)) == fp_abs(a as int) * (FP_ONE as int));
        assert(q as int == fp_abs((a as int) * (FP_ONE as int)) / fp_abs(b as int));
        if neg {
            assert((a as int) * (FP_ONE as int) >= 0 <==> (a as int) >= 0) by (nonlinear_arith);
        } else {
            assert((a as int) * (FP_ONE as int) >= 0 <==> (a as int) >= 0) by (nonlinear_arith);
        }
    }
    if neg {
        -mi
    } else {
        mi
    }
}

/// `r` is the integer square root of `n`.
pub open spec fn is_sqrt(n: int, r: int) -> bool {
    r >= 0 && r * r <= n < (r + 1) * (r + 1)
}

/// The integer square root: the unique `r >= 0` with `r * r <= n < (r+1)*(r+1)`.
pub open spec fn sqrt_floor(n: int) -> int
    recommends
        n >= 0,
{
    choose|r: int| is_sqrt(n, r)
}

/// Every nonnegative integer has an integer square root.
pub proof fn lemma_sqrt_exists(n: int)
    requires
        n >= 0,
    ensures
        exists|r: int| is_sqrt(n, r),
    decreases n,
{
    if n == 0 {
        assert(is_sqrt(0, 0));
    } else {
        lemma_sqrt_exists(n - 1);
        let r = choose|r: int| #[trigger] is_sqrt(n - 1, r);
        if (r + 1) * (r + 1) <= n {
            assert((r + 1) * (r + 1) == n);
            assert((r + 2) * (r + 2) > n) by (nonlinear_arith)
                requires
                    r >= 0,
                    (r + 1) * (r + 1) == n,
            ;
            assert(is_sqrt(n, r + 1));
        } else {
            assert(is_sqrt(n, r));
        }
    }
}

/// The integer square root is unique.
pub proof fn lemma_sqrt_unique(n: int, r1: int, r2: int)
    requires
        is_sqrt(n, r1),
        is_sqrt(n, r2),
    ensures
        r1 == r2,
{
    if r1 < r2 {
        assert((r1 + 1) * (r1 + 1) <= r2 * r2) by (nonlinear_arith)
            requires
                0 <= r1 < r2,
        ;
    }
    if r2 < r1 {
        assert((r2 + 1) * (r2 + 1) <= r1 * r1) by (nonlinear_arith)
            requires
                0 <= r2 < r1,
        ;
    }
}

/// `sqrt_floor` satisfies the square-root property it names.
pub proof fn lemma_sqrt_floor_is_sqrt(n: int)
    requires
        n >= 0,
    ensures
        is_sqrt(n, sqrt_floor(n)),
{
    lemma_sqrt_exists(n);
}

/// The integer square root, by bisection.
pub fn isqrt(n: u128) -> (r: u128)
    ensures
        r as int == sqrt_floor(n as int),
        is_sqrt(n as int, r as int),
{
    let mut lo: u128 = 0;
    let mut hi: u128 = 0x1_0000_0000_0000_0000;
    proof {
        assert(0x1_0000_0000_0000_0000int * 0x1_0000_0000_0000_0000int
            == 0x1_0000_0000_0000_0000_0000_0000_0000_0000int) by (nonlinear_arith);
    }
    while lo + 1 < hi
        invariant
            lo < hi,
            hi <= 0x1_0000_0000_0000_0000u128,
            (lo as int) * (lo as int) <= n as int,
            (n as int) < (hi as int) * (hi as int),
        decreases hi - lo,
    {
        let mid = lo + (hi - lo) / 2;
        proof {
            assert((mid as int) * (mid as int) <= 0xffff_ffff_ffff_ffffint
                * 0xffff_ffff_ffff_ffffint) by (nonlinear_arith)
                requires
                    0 <= mid as int <= 0xffff_ffff_ffff_ffffint,
            ;
            assert(0xffff_ffff_ffff_ffffint * 0xffff_ffff_ffff_ffffint
                < 0x1_0000_0000_0000_0000_0000_0000_0000_0000int) by (nonlinear_arith);
        }
        if mid * mid <= n {
            lo = mid;
        } else {
            hi = mid;
        }
    }
    proof {
        assert(is_sqrt(n as int, lo as int));
        lemma_sqrt_floor_is_sqrt(n as int);
        lemma_sqrt_unique(n as int, lo as int, sqrt_floor(n as int));
    }
    lo
}

/// A three-component fixed-point vector.
#[derive(Clone, Copy, PartialEq, Eq, Structural, Debug)]
pub struct Vec3 {
    pub x: i64,
    pub y: i64,
    pub z: i64,
}

/// Componentwise saturating vector sum.
pub open spec fn spec_vadd(a: Vec3, b: Vec3) -> Vec3 {
    Vec3 {
        x: fp_add(a.x as int, b.x as int) as i64,
        y: fp_add(a.y as int, b.y as int) as i64,
        z: fp_add(a.z as int, b.z as int) as i64,
    }
}

/// Componentwise saturating vector product.
pub open spec fn spec_vmul(a: Vec3, b: Vec3) -> Vec3 {
    Vec3 {
        x: fp_mul(a.x as int, b.x as int) as i64,
        y: fp_mul(a.y as int, b.y as int) as i64,
        z: fp_mul(a.z as int, b.z as int) as i64,
    }
}

/// Saturating scaling of a vector by a fixed-point scalar.
pub open spec fn spec_vscale(a: Vec3, s: int) -> Vec3 {
    Vec3 {
        x: fp_mul(a.x as int, s) as i64,
        y: fp_mul(a.y as int, s) as i64,
        z: fp_mul(a.z as int, s) as i64,
    }
}

/// Saturating cross product.
pub open spec fn spec_cross(a: Vec3, b: Vec3) -> Vec3 {
    Vec3 {
        x: fp_sub(fp_mul(a.y as int, b.z as int), fp_mul(a.z as int, b.y as int)) as i64,
        y: fp_sub(fp_mul(a.z as int, b.x as int), fp_mul(a.x as int, b.z as int)) as i64,
        z: fp_sub(fp_mul(a.x as int, b.y as int), fp_mul(a.y as int, b.x as int)) as i64,
    }
}

/// The squared length of a vector, exact and unclamped.
pub open spec fn spec_len2(a: Vec3) -> int {
    (a.x as int) * (a.x as int) + (a.y as int) * (a.y as int) + (a.z as int) * (a.z as int)
}

/// The unit-length vector pointing the way `a` does, or the zero vector for
/// the zero input. Each component of the result is the exact quotient
/// `a_i * FP_ONE / |a|`, truncated toward zero.
pub open spec fn spec_normalized(a: Vec3) -> Vec3 {
    if a.x == 0 && a.y == 0 && a.z == 0 {
        a
    } else {
        let norm = sqrt_floor(spec_len2(a));
        Vec3 {
            x: tdiv((a.x as int) * (FP_ONE as int), norm) as i64,
            y: tdiv((a.y as int) * (FP_ONE as int), norm) as i64,
            z: tdiv((a.z as int) * (FP_ONE as int), norm) as i64,
        }
    }
}

impl Vec3 {
    pub fn new(x: i64, y: i64, z: i64) -> (v: Vec3)
        ensures
            v == (Vec3 { x, y, z }),
    {
        Vec3 { x, y, z }
    }

    pub fn zero() -> (v: Vec3)
        ensures
            v == (Vec3 { x: 0i64, y: 0i64, z: 0i64 }),
    {
        Vec3 { x: 0, y: 0, z: 0 }
    }

    /// Componentwise saturating sum.
    pub fn vadd(self, o: Vec3) -> (r: Vec3)
        ensures
            r == spec_vadd(self, o),
    {
        Vec3 { x: fadd(self.x, o.x), y: fadd(self.y, o.y), z: fadd(self.z, o.z) }
    }

    /// Componentwise saturating product.
    pub fn vmul(self, o: Vec3) -> (r: Vec3)
        ensures
            r == spec_vmul(self, o),
    {
        Vec3 { x: fmul(self.x, o.x), y: fmul(self.y, o.y), z: fmul(self.z, o.z) }
    }

    /// Saturating scaling by a fixed-point scalar.
    pub fn scaled(self, s: i64) -> (r: Vec3)
        ensures
            r == spec_vscale(self, s as int),
    {
        Vec3 { x: fmul(self.x, s), y: fmul(self.y, s), z: fmul(self.z, s) }
    }

    /// Saturating cross product.
    pub fn cross(self, o: Vec3) -> (r: Vec3)
        ensures
            r == spec_cross(self, o),
    {
        Vec3 {
            x: fsub(fmul(self.y, o.z), fmul(self.z, o.y)),
            y: fsub(fmul(self.z, o.x), fmul(self.x, o.z)),
            z: fsub(fmul(self.x, o.y), fmul(self.y, o.x)),
        }
    }

    /// The unit vector with this direction, or zero for the zero vector.
    pub fn normalized(self) -> (r: Vec3)
        ensures
            r == spec_normalized(self),
    {
        if self.x == 0 && self.y == 0 && self.z == 0 {
            return self;
        }
        let ax = abs_u128(self.x);
        let ay = abs_u128(self.y);
        let az = abs_u128(self.z);
        proof {
            lemma_abs_mul(self.x as int, self.x as int);
            lemma_abs_mul(self.y as int, self.y as int);
            lemma_abs_mul(self.z as int, self.z as int);
            assert(ax * ax <= 0x8000_0000_0000_0000u128 * 0x8000_0000_0000_0000u128
                && ay * ay <= 0x8000_0000_0000_0000u128 * 0x8000_0000_0000_0000u128
                && az * az <= 0x8000_0000_0000_0000u128 * 0x8000_0000_0000_0000u128)
                by (nonlinear_arith)
                requires
                    ax <= 0x8000_0000_0000_0000u128,
                    ay <= 0x8000_0000_0000_0000u128,
                    az <= 0x8000_0000_0000_0000u128,
            ;
        }
        proof {
            assert(ax as int == self.x as int || ax as int == -(self.x as int));
            assert(ay as int == self.y as int || ay as int == -(self.y as int));
            assert(az as int == self.z as int || az as int == -(self.z as int));
            assert((ax as int) * (ax as int) == (self.x as int) * (self.x as int))
                by (nonlinear_arith)
                requires
                    ax as int == self.x as int || ax as int == -(self.x as int),
            ;
            assert((ay as int) * (ay as int) == (self.y as int) * (self.y as int))
                by (nonlinear_arith)
                requires
                    ay as int == self.y as int || ay as int == -(self.y as int),
            ;
            assert((az as int) * (az as int) == (self.z as int) * (self.z as int))
                by (nonlinear_arith)
                requires
                    az as int == self.z as int || az as int == -(self.z as int),
            ;
        }
        let n2 = ax * ax + ay * ay + az * az;
        let norm = isqrt(n2);
        proof {
            assert(n2 as int == spec_len2(self));
            assert(n2 >= 1) by {
                if ax >= 1 {
                    assert((ax as int) * (ax as int) >= 1) by (nonlinear_arith)
                        requires
                            ax as int >= 1,
                    ;
                } else if ay >= 1 {
                    assert((ay as int) * (ay as int) >= 1) by (nonlinear_arith)
                        requires
                            ay as int >= 1,
                    ;
                } else {
                    assert(az >= 1);
                    assert((az as int) * (az as int) >= 1) by (nonlinear_arith)
                        requires
                            az as int >= 1,
                    ;
                }
            }
            assert(norm > 0) by {
                if norm == 0 {
                    assert(is_sqrt(n2 as int, norm as int));
                    assert((norm as int + 1) * (norm as int + 1) == 1) by (nonlinear_arith)
                        requires
                            norm as int == 0,
                    ;
                }
            }
            lemma_component_bounded_by_norm(ax as int, n2 as int, norm as int);
            lemma_component_bounded_by_norm(ay as int, n2 as int, norm as int);
            lemma_component_bounded_by_norm(az as int, n2 as int, norm as int);
        }
        let qx = ax * (FP_ONE as u128) / norm;
        let qy = ay * (FP_ONE as u128) / norm;
        let qz = az * (FP_ONE as u128) / norm;
        proof {
            lemma_scaled_quotient_bounded(ax as int, norm as int);
            lemma_scaled_quotient_bounded(ay as int, norm as int);
            lemma_scaled_quotient_bounded(az as int, norm as int);
            lemma_abs_mul(self.x as int, FP_ONE as int);
            lemma_abs_mul(self.y as int, FP_ONE as int);
            lemma_abs_mul(self.z as int, FP_ONE as int);
        }
        let rx = if self.x < 0 {
            -(qx as i64)
        } else {
            qx as i64
        };
        let ry = if self.y < 0 {
            -(qy as i64)
        } else {
            qy as i64
        };
        let rz = if self.z < 0 {
            -(qz as i64)
        } else {
            qz as i64
        };
        proof {
            assert((self.x as int) * (FP_ONE as int) >= 0 <==> self.x as int >= 0)
                by (nonlinear_arith);
            assert((self.y as int) * (FP_ONE as int) >= 0 <==> self.y as int >= 0)
                by (nonlinear_arith);
            assert((self.z as int) * (FP_ONE as int) >= 0 <==> self.z as int >= 0)
                by (nonlinear_arith);
        }
        Vec3 { x: rx, y: ry, z: rz }
    }
}

/// A fixed-point quaternion `(x, y, z, w)`; the identity rotation is
/// `(0, 0, 0, FP_ONE)`.
#[derive(Clone, Copy, PartialEq, Eq, Structural, Debug)]
pub struct Quat {
    pub x: i64,
    pub y: i64,
    pub z: i64,
    pub w: i64,
}

/// The identity rotation.
pub open spec fn spec_quat_identity() -> Quat {
    Quat { x: 0i64, y: 0i64, z: 0i64, w: FP_ONE }
}

/// The Hamilton product of two fixed-point quaternions, each elementary
/// operation saturating.
pub open spec fn spec_qmul(a: Quat, b: Quat) -> Quat {
    Quat {
        x: fp_sub(
            fp_add(
                fp_add(fp_mul(a.w as int, b.x as int), fp_mul(a.x as int, b.w as int)),
                fp_mul(a.y as int, b.z as int),
            ),
            fp_mul(a.z as int, b.y as int),
        ) as i64,
        y: fp_add(
            fp_add(
                fp_sub(fp_mul(a.w as int, b.y as int), fp_mul(a.x as int, b.z as int)),
                fp_mul(a.y as int, b.w as int),
            ),
            fp_mul(a.z as int, b.x as int),
        ) as i64,
        z: fp_add(
            fp_sub(
                fp_add(fp_mul(a.w as int, b.z as int), fp_mul(a.x as int, b.y as int)),
                fp_mul(a.y as int, b.x as int),
            ),
            fp_mul(a.z as int, b.w as int),
        ) as i64,
        w: fp_sub(
            fp_sub(
                fp_sub(fp_mul(a.w as int, b.w as int), fp_mul(a.x as int, b.x as int)),
                fp_mul(a.y as int, b.y as int),
            ),
            fp_mul(a.z as int, b.z as int),
        ) as i64,
    }
}

/// A vector rotated by a quaternion: `v + w*t + u x t` with `t = 2 (u x v)`
/// and `u` the quaternion's vector part, each elementary operation
/// saturating.
pub open spec fn spec_rotated(v: Vec3, q: Quat) -> Vec3 {
    let u = Vec3 { x: q.x, y: q.y, z: q.z };
    let c = spec_cross(u, v);
    let t = Vec3 {
        x: fp_add(c.x as int, c.x as int) as i64,
        y: fp_add(c.y as int, c.y as int) as i64,
        z: fp_add(c.z as int, c.z as int) as i64,
    };
    let ut = spec_cross(u, t);
    Vec3 {
        x: fp_add(fp_add(v.x as int, fp_mul(q.w as int, t.x as int)), ut.x as int) as i64,
        y: fp_add(fp_add(v.y as int, fp_mul(q.w as int, t.y as int)), ut.y as int) as i64,
        z: fp_add(fp_add(v.z as int, fp_mul(q.w as int, t.z as int)), ut.z as int) as i64,
    }
}

impl Quat {
    /// The identity rotation.
    pub fn identity() -> (q: Quat)
        ensures
            q == spec_quat_identity(),
    {
        Quat { x: 0, y: 0, z: 0, w: FP_ONE }
    }

    /// The rotation of `angle` around `axis`, given as the sine and cosine of
    /// the half angle (trigonometry is the caller's concern).
    pub fn from_axis_sin_cos(axis: Vec3, sin_half: i64, cos_half: i64) -> (q: Quat)
        ensures
            q == (Quat {
                x: fp_mul(axis.x as int, sin_half as int) as i64,
                y: fp_mul(axis.y as int, sin_half as int) as i64,
                z: fp_mul(axis.z as int, sin_half as int) as i64,
                w: cos_half,
            }),
    {
        Quat {
            x: fmul(axis.x, sin_half),
            y: fmul(axis.y, sin_half),
            z: fmul(axis.z, sin_half),
            w: cos_half,
        }
    }

    /// The Hamilton product `self * o`.
    pub fn multiply(self, o: Quat) -> (r: Quat)
        ensures
            r == spec_qmul(self, o),
    {
        Quat {
            x: fsub(
                fadd(fadd(fmul(self.w, o.x), fmul(self.x, o.w)), fmul(self.y, o.z)),
                fmul(self.z, o.y),
            ),
            y: fadd(
                fadd(fsub(fmul(self.w, o.y), fmul(self.x, o.z)), fmul(self.y, o.w)),
                fmul(self.z, o.x),
            ),
            z: fadd(
                fsub(fadd(fmul(self.w, o.z), fmul(self.x, o.y)), fmul(self.y, o.x)),
                fmul(self.z, o.w),
            ),
            w: fsub(
                fsub(fsub(fmul(self.w, o.w), fmul(self.x, o.x)), fmul(self.y, o.y)),
                fmul(self.z, o.z),
            ),
        }
    }
}

impl Vec3 {
    /// This vector rotated by `q`.
    pub fn rotated(self, q: Quat) -> (r: Vec3)
        ensures
            r == spec_rotated(self, q),
    {
        let u = Vec3 { x: q.x, y: q.y, z: q.z };
        let c = u.cross(self);
        let t = Vec3 { x: fadd(c.x, c.x), y: fadd(c.y, c.y), z: fadd(c.z, c.z) };
        let ut = u.cross(t);
        Vec3 {
            x: fadd(fadd(self.x, fmul(q.w, t.x)), ut.x),
            y: fadd(fadd(self.y, fmul(q.w, t.y)), ut.y),
            z: fadd(fadd(self.z, fmul(q.w, t.z)), ut.z),
        }
    }
}

/// A local transform: translation, rotation and non-uniform scale, applied to
/// points as scale first, then rotation, then translation.
#[derive(Clone, Copy, PartialEq, Eq, Structural, Debug)]
pub struct Transform {
    pub translation: Vec3,
    pub rotation: Quat,
    pub scale: Vec3,
}

/// The identity transform.
pub open spec fn spec_transform_identity() -> Transform {
    Transform {
        translation: Vec3 { x: 0i64, y: 0i64, z: 0i64 },
        rotation: spec_quat_identity(),
        scale: Vec3 { x: FP_ONE, y: FP_ONE, z: FP_ONE },
    }
}

/// Parent-times-child transform composition: the child is expressed in the
/// parent's space, so the child's translation is scaled and rotated by the
/// parent before the parent's translation is added.
pub open spec fn spec_compose(p: Transform, c: Transform) -> Transform {
    Transform {
        translation: spec_vadd(p.translation, spec_rotated(spec_vmul(p.scale, c.translation), p.rotation)),
        rotation: spec_qmul(p.rotation, c.rotation),
        scale: spec_vmul(p.scale, c.scale),
    }
}

impl Transform {
    /// The identity transform.
    pub fn identity() -> (t: Transform)
        ensures
            t == spec_transform_identity(),
    {
        Transform {
            translation: Vec3::zero(),
            rotation: Quat::identity(),
            scale: Vec3 { x: FP_ONE, y: FP_ONE, z: FP_ONE },
        }
    }

    /// A pure translation.
    pub fn from_translation(v: Vec3) -> (t: Transform)
        ensures
            t == (Transform {
                translation: v,
                rotation: spec_quat_identity(),
                scale: Vec3 { x: FP_ONE, y: FP_ONE, z: FP_ONE },
            }),
    {
        Transform {
            translation: v,
            rotation: Quat::identity(),
            scale: Vec3 { x: FP_ONE, y: FP_ONE, z: FP_ONE },
        }
    }

    /// Compose `self` (the parent) with `child`.
    pub fn compose(&self, child: &Transform) -> (r: Transform)
        ensures
            r == spec_compose(*self, *child),
    {
        Transform {
            translation: self.translation.vadd(self.scale.vmul(child.translation).rotated(self.rotation)),
            rotation: self.rotation.multiply(child.rotation),
            scale: self.scale.vmul(child.scale),
        }
    }

    /// Move by `delta` (saturating).
    pub fn translate(&mut self, delta: Vec3)
        ensures
            final(self).translation == spec_vadd(old(self).translation, delta),
            final(self).rotation == old(self).rotation,
            final(self).scale == old(self).scale,
    {
        self.translation = self.translation.vadd(delta);
    }

    /// Apply the rotation `q` on top of the current one.
    pub fn rotate(&mut self, q: Quat)
        ensures
            final(self).rotation == spec_qmul(q, old(self).rotation),
            final(self).translation == old(self).translation,
            final(self).scale == old(self).scale,
    {
        self.rotation = q.multiply(self.rotation);
    }
}

/// Multiplying by zero yields zero.
pub proof fn lemma_fp_mul_zero(a: int)
    ensures
        fp_mul(a, 0) == 0,
        fp_mul(0, a) == 0,
{
}

/// Multiplying an in-range scalar by `FP_ONE` leaves it unchanged.
pub proof fn lemma_fp_mul_one(t: int)
    requires
        -(FP_LIMIT as int) <= t <= FP_LIMIT as int,
    ensures
        fp_mul(FP_ONE as int, t) == t,
        fp_mul(t, FP_ONE as int) == t,
{
    lemma_abs_mul(FP_ONE as int, t);
    lemma_div_multiples_vanish(fp_abs(t), FP_ONE as int);
    assert((FP_ONE as int) * fp_abs(t) == fp_abs((FP_ONE as int) * t));
    assert(((FP_ONE as int) * fp_abs(t)) / (FP_ONE as int) == fp_abs(t));
    assert(t * (FP_ONE as int) == (FP_ONE as int) * t) by (nonlinear_arith);
}

/// Rotating an in-range vector by the identity quaternion leaves it
/// unchanged.
pub proof fn lemma_rotated_identity(v: Vec3)
    requires
        -(FP_LIMIT as int) <= v.x as int <= FP_LIMIT as int,
        -(FP_LIMIT as int) <= v.y as int <= FP_LIMIT as int,
        -(FP_LIMIT as int) <= v.z as int <= FP_LIMIT as int,
    ensures
        spec_rotated(v, spec_quat_identity()) == v,
{
    lemma_fp_mul_zero(v.x as int);
    lemma_fp_mul_zero(v.y as int);
    lemma_fp_mul_zero(v.z as int);
    lemma_fp_mul_zero(FP_ONE as int);
}

/// Law: composing two pure translations adds them. A child translated by
/// `c.translation` under a parent translated by `p.translation` (identity
/// rotation and unit scale on the parent) sits at the componentwise
/// (saturating) sum of the two translations in world space.
pub proof fn lemma_compose_pure_translation(p: Transform, c: Transform)
    requires
        p.rotation == spec_quat_identity(),
        p.scale == (Vec3 { x: FP_ONE, y: FP_ONE, z: FP_ONE }),
        -(FP_LIMIT as int) <= c.translation.x as int <= FP_LIMIT as int,
        -(FP_LIMIT as int) <= c.translation.y as int <= FP_LIMIT as int,
        -(FP_LIMIT as int) <= c.translation.z as int <= FP_LIMIT as int,
    ensures
        spec_compose(p, c).translation == spec_vadd(p.translation, c.translation),
{
    lemma_fp_mul_one(c.translation.x as int);
    lemma_fp_mul_one(c.translation.y as int);
    lemma_fp_mul_one(c.translation.z as int);
    assert(spec_vmul(p.scale, c.translation) == c.translation);
    lemma_rotated_identity(c.translation);
}

/// A component's magnitude never exceeds the length of its vector.
proof fn lemma_component_bounded_by_norm(a: int, n2: int, norm: int)
    requires
        a >= 0,
        a * a <= n2,
        is_sqrt(n2, norm),
    ensures
        a <= norm,
{
    if a > norm {
        assert((norm + 1) * (norm + 1) <= a * a) by (nonlinear_arith)
            requires
                0 <= norm < a,
        ;
    }
}

/// `a * FP_ONE / norm` stays within `FP_ONE` when `a <= norm`.
proof fn lemma_scaled_quotient_bounded(a: int, norm: int)
    requires
        0 <= a <= norm,
        norm > 0,
    ensures
        a * (FP_ONE as int) / norm <= FP_ONE as int,
        a * (FP_ONE as int) / norm >= 0,
{
    assert(a * (FP_ONE as int) <= norm * (FP_ONE as int)) by (nonlinear_arith)
        requires
            0 <= a <= norm,
    ;
    assert(norm * (FP_ONE as int) / norm == FP_ONE as int) by {
        lemma_div_multiples_vanish(FP_ONE as int, norm);
    }
    assert(a * (FP_ONE as int) / norm <= norm * (FP_ONE as int) / norm) by (nonlinear_arith)
        requires
            norm > 0,
            0 <= a * (FP_ONE as int) <= norm * (FP_ONE as int),
    ;
}

} // verus!

