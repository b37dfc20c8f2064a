//! Three-component points and vectors in 16.16 fixed point.

use vstd::prelude::*;

verus! {

use crate::fixed::SCALE;
use crate::fixed::tdiv;
use crate::fixed::fxmul;
use crate::fixed::isqrt_s;
use crate::fixed::lemma_isqrt_s;
use crate::fixed::lemma_square_ordered;
use crate::fixed::lemma_mul_abs_bound;
use crate::fixed::lemma_tdiv_abs_bound;
use crate::fixed::isqrt_i128;
use crate::rng::gen_range_i64;

/// Bound on the coordinates of scene data: sphere centers, radii and
/// camera points stay within 8192 whole units of the origin.
pub const WORLD_LIMIT: i64 = 536870912;

/// Bound on the coordinates of ray origins and directions; hit points
/// are clamped into it, so bounced rays stay within it too.
pub const COORD_LIMIT: i64 = 1073741824;

/// Every surface normal is clamped into two whole units per component.
pub const UNIT_LIMIT: i64 = 131072;

pub trait DotProduct {
    type Output;

    /// When the operands are small enough for the product.
    spec fn dot_req(&self, rhs: &Self) -> bool;

    fn dot(&self, rhs: &Self) -> Self::Output
        requires
            self.dot_req(rhs),
    ;
}

pub trait Dot {
    type Output;

    /// When the operands are small enough for the product.
    spec fn dot_req(&self, rhs: &Self) -> bool;

    fn dot(&self, rhs: &Self) -> Self::Output
        requires
            self.dot_req(rhs),
    ;
}

pub trait CrossProduct {
    type Output;

    /// When the operands are small enough for the product.
    spec fn cross_req(&self, rhs: &Self) -> bool;

    fn cross(&self, rhs: &Self) -> Self::Output
        requires
            self.cross_req(rhs),
    ;
}

pub trait Length {
    type Output;

    /// When the coordinates are small enough to be squared.
    spec fn length_req(&self) -> bool;

    fn length(&self) -> Self::Output
        requires
            self.length_req(),
    ;

    fn length_squared(&self) -> Self::Output
        requires
            self.length_req(),
    ;
}

pub trait Normalize {
    type Output;

    /// When the vector is bounded and has a nonzero length.
    spec fn normalize_req(&self) -> bool;

    fn normalize(&self) -> Self::Output
        requires
            self.normalize_req(),
    ;
}

#[derive(Clone, Copy, PartialEq, Eq, Structural, Debug)]
pub struct Point3D {
    pub x: i64,
    pub y: i64,
    pub z: i64,
}

/// All three coordinates lie within `[-m, m]`.
pub open spec fn in_range(v: Point3D, m: int) -> bool {
    &&& -m <= v.x <= m
    &&& -m <= v.y <= m
    &&& -m <= v.z <= m
}

/// The exact dot product of the raw coordinates; real dot product
/// times `SCALE * SCALE`.
pub open spec fn dot3(a: Point3D, b: Point3D) -> int {
    a.x * b.x + a.y * b.y + a.z * b.z
}

/// The zero vector.
pub open spec fn is_zero(v: Point3D) -> bool {
    v.x == 0 && v.y == 0 && v.z == 0
}

/// The coordinates of `v` scaled to unit length, as exact integers.
pub open spec fn unit3(v: Point3D) -> (int, int, int) {
    let n = isqrt_s(dot3(v, v) as nat) as int;
    (tdiv(v.x * SCALE, n), tdiv(v.y * SCALE, n), tdiv(v.z * SCALE, n))
}

/// Dot product of an integer triple with a vector's raw coordinates.
pub open spec fn dot3t(a: (int, int, int), b: Point3D) -> int {
    a.0 * b.x + a.1 * b.y + a.2 * b.z
}

/// A square is never negative.
pub proof fn lemma_square_nonneg(a: int)
    ensures
        a * a >= 0,
{
    assert(a * a >= 0) by (nonlinear_arith);
}

/// The dot product of a vector with itself is never negative, and it
/// dominates the square of each coordinate.
pub proof fn lemma_dot_self(v: Point3D)
    ensures
        dot3(v, v) >= 0,
        v.x * v.x <= dot3(v, v),
        v.y * v.y <= dot3(v, v),
        v.z * v.z <= dot3(v, v),
{
    lemma_square_nonneg(v.x as int);
    lemma_square_nonneg(v.y as int);
    lemma_square_nonneg(v.z as int);
}

/// A nonzero vector has a positive dot product with itself.
pub proof fn lemma_nonzero_dot(v: Point3D)
    requires
        !is_zero(v),
    ensures
        dot3(v, v) > 0,
{
    lemma_dot_self(v);
    if v.x != 0 {
        assert(v.x * v.x > 0) by (nonlinear_arith)
            requires
                v.x != 0,
        ;
    } else if v.y != 0 {
        assert(v.y * v.y > 0) by (nonlinear_arith)
            requires
                v.y != 0,
        ;
    } else {
        assert(v.z * v.z > 0) by (nonlinear_arith)
            requires
                v.z != 0,
        ;
    }
}

/// Bound on the components of a fixed-point cross product from bounds
/// on the factors' coordinates.
pub proof fn lemma_cross_bound(a: Point3D, b: Point3D, am: int, bm: int, m: int)
    requires
        in_range(a, am),
        in_range(b, bm),
        am >= 0,
        bm >= 0,
        am * bm + am * bm <= m * SCALE,
    ensures
        -m <= tdiv(a.y * b.z - a.z * b.y, SCALE as int) <= m,
        -m <= tdiv(a.z * b.x - a.x * b.z, SCALE as int) <= m,
        -m <= tdiv(a.x * b.y - a.y * b.x, SCALE as int) <= m,
{
    lemma_mul_abs_bound(a.y as int, b.z as int, am, bm);
    lemma_mul_abs_bound(a.z as int, b.y as int, am, bm);
    lemma_mul_abs_bound(a.z as int, b.x as int, am, bm);
    lemma_mul_abs_bound(a.x as int, b.z as int, am, bm);
    lemma_mul_abs_bound(a.x as int, b.y as int, am, bm);
    lemma_mul_abs_bound(a.y as int, b.x as int, am, bm);
    lemma_tdiv_abs_bound(a.y * b.z - a.z * b.y, SCALE as int, m);
    lemma_tdiv_abs_bound(a.z * b.x - a.x * b.z, SCALE as int, m);
    lemma_tdiv_abs_bound(a.x * b.y - a.y * b.x, SCALE as int, m);
}

/// Bound on a dot product from bounds on the factors' coordinates.
pub proof fn lemma_dot3_bound(a: Point3D, b: Point3D, am: int, bm: int)
    requires
        in_range(a, am),
        in_range(b, bm),
        am >= 0,
        bm >= 0,
    ensures
        -(3 * am * bm) <= dot3(a, b) <= 3 * am * bm,
{
    lemma_mul_abs_bound(a.x as int, b.x as int, am, bm);
    lemma_mul_abs_bound(a.y as int, b.y as int, am, bm);
    lemma_mul_abs_bound(a.z as int, b.z as int, am, bm);
    assert(3 * am * bm == am * bm + am * bm + am * bm) by (nonlinear_arith);
}

impl Point3D {
    pub fn new(x: i64, y: i64, z: i64) -> (r: Point3D)
        ensures
            r == (Point3D { x, y, z }),
    {
        Point3D { x, y, z }
    }

    /// Componentwise sum.
    pub fn add(&self, rhs: &Point3D) -> (r: Point3D)
        requires
            i64::MIN <= self.x + rhs.x <= i64::MAX,
            i64::MIN <= self.y + rhs.y <= i64::MAX,
            i64::MIN <= self.z + rhs.z <= i64::MAX,
        ensures
            r.x == self.x + rhs.x,
            r.y == self.y + rhs.y,
            r.z == self.z + rhs.z,
    {
        Point3D { x: self.x + rhs.x, y: self.y + rhs.y, z: self.z + rhs.z }
    }

    /// Componentwise difference.
    pub fn sub(&self, rhs: &Point3D) -> (r: Point3D)
        requires
            i64::MIN <= self.x - rhs.x <= i64::MAX,
            i64::MIN <= self.y - rhs.y <= i64::MAX,
            i64::MIN <= self.z - rhs.z <= i64::MAX,
        ensures
            r.x == self.x - rhs.x,
            r.y == self.y - rhs.y,
            r.z == self.z - rhs.z,
    {
        Point3D { x: self.x - rhs.x, y: self.y - rhs.y, z: self.z - rhs.z }
    }

    /// Componentwise negation.
    pub fn neg(&self) -> (r: Point3D)
        requires
            self.x != i64::MIN,
            self.y != i64::MIN,
            self.z != i64::MIN,
        ensures
            r.x == -self.x,
            r.y == -self.y,
            r.z == -self.z,
    {
        Point3D { x: -self.x, y: -self.y, z: -self.z }
    }

    /// The vector scaled by the fixed-point factor `s`.
    pub fn scale(&self, s: i64) -> (r: Point3D)
        requires
            i64::MIN <= fxmul(s as int, self.x as int) <= i64::MAX,
            i64::MIN <= fxmul(s as int, self.y as int) <= i64::MAX,
            i64::MIN <= fxmul(s as int, self.z as int) <= i64::MAX,
        ensures
            r.x == fxmul(s as int, self.x as int),
            r.y == fxmul(s as int, self.y as int),
            r.z == fxmul(s as int, self.z as int),
    {
        Point3D {
            x: crate::fixed::fx_mul(s, self.x),
            y: crate::fixed::fx_mul(s, self.y),
            z: crate::fixed::fx_mul(s, self.z),
        }
    }

    /// Exact dot product of the raw coordinates, computed wide.
    pub fn dot_wide(&self, rhs: &Point3D) -> (r: i128)
        requires
            in_range(*self, 0x8_0000_0000),
            in_range(*rhs, 0x8_0000_0000),
        ensures
            r == dot3(*self, *rhs),
    {
        proof {
            lemma_mul_abs_bound(self.x as int, rhs.x as int, 0x8_0000_0000, 0x8_0000_0000);
            lemma_mul_abs_bound(self.y as int, rhs.y as int, 0x8_0000_0000, 0x8_0000_0000);
            lemma_mul_abs_bound(self.z as int, rhs.z as int, 0x8_0000_0000, 0x8_0000_0000);
        }
        (self.x as i128) * (rhs.x as i128) + (self.y as i128) * (rhs.y as i128) + (self.z as i128)
            * (rhs.z as i128)
    }

    /// Fixed-point dot product: the wide product scaled back down.
    pub fn dot_fx(&self, rhs: &Point3D) -> (r: i64)
        requires
            in_range(*self, 0x8_0000_0000),
            in_range(*rhs, 0x8_0000_0000),
        ensures
            r == tdiv(dot3(*self, *rhs), SCALE as int),
    {
        let w = self.dot_wide(rhs);
        proof {
            lemma_dot3_bound(*self, *rhs, 0x8_0000_0000, 0x8_0000_0000);
            lemma_tdiv_abs_bound(w as int, SCALE as int, 0xc0_0000_0000_0000);
        }
        let q = crate::fixed::div_i128(w, SCALE as i128);
        q as i64
    }

    /// Fixed-point cross product.
    pub fn cross_fx(&self, rhs: &Point3D) -> (r: Point3D)
        requires
            in_range(*self, 0x8000_0000),
            in_range(*rhs, 0x8000_0000),
        ensures
            r.x == tdiv(self.y * rhs.z - self.z * rhs.y, SCALE as int),
            r.y == tdiv(self.z * rhs.x - self.x * rhs.z, SCALE as int),
            r.z == tdiv(self.x * rhs.y - self.y * rhs.x, SCALE as int),
    {
        proof {
            lemma_mul_abs_bound(self.y as int, rhs.z as int, 0x8000_0000, 0x8000_0000);
            lemma_mul_abs_bound(self.z as int, rhs.y as int, 0x8000_0000, 0x8000_0000);
            lemma_mul_abs_bound(self.z as int, rhs.x as int, 0x8000_0000, 0x8000_0000);
            lemma_mul_abs_bound(self.x as int, rhs.z as int, 0x8000_0000, 0x8000_0000);
            lemma_mul_abs_bound(self.x as int, rhs.y as int, 0x8000_0000, 0x8000_0000);
            lemma_mul_abs_bound(self.y as int, rhs.x as int, 0x8000_0000, 0x8000_0000);
            lemma_tdiv_abs_bound(
                self.y * rhs.z - self.z * rhs.y,
                SCALE as int,
                0x8000_0000_0000,
            );
            lemma_tdiv_abs_bound(
                self.z * rhs.x - self.x * rhs.z,
                SCALE as int,
                0x8000_0000_0000,
            );
            lemma_tdiv_abs_bound(
                self.x * rhs.y - self.y * rhs.x,
                SCALE as int,
                0x8000_0000_0000,
            );
        }
        let cx = (self.y as i128) * (rhs.z as i128) - (self.z as i128) * (rhs.y as i128);
        let cy = (self.z as i128) * (rhs.x as i128) - (self.x as i128) * (rhs.z as i128);
        let cz = (self.x as i128) * (rhs.y as i128) - (self.y as i128) * (rhs.x as i128);
        Point3D {
            x: crate::fixed::div_i128(cx, SCALE as i128) as i64,
            y: crate::fixed::div_i128(cy, SCALE as i128) as i64,
            z: crate::fixed::div_i128(cz, SCALE as i128) as i64,
        }
    }

    /// Squared length as a fixed-point value.
    pub fn length_squared_fx(&self) -> (r: i64)
        requires
            in_range(*self, 0x8_0000_0000),
        ensures
            r == tdiv(dot3(*self, *self), SCALE as int),
            r >= 0,
    {
        proof {
            lemma_dot_self(*self);
            crate::fixed::lemma_tdiv_nonincreasing(dot3(*self, *self), SCALE as int);
        }
        self.dot_fx(self)
    }

    /// Length of the vector: the integer square root of the raw dot
    /// product, which is the fixed-point length.
    pub fn length_fx(&self) -> (r: i64)
        requires
            in_range(*self, 0x8_0000_0000),
        ensures
            r == isqrt_s(dot3(*self, *self) as nat),
            r >= 0,
    {
        proof {
            lemma_dot_self(*self);
            lemma_dot3_bound(*self, *self, 0x8_0000_0000, 0x8_0000_0000);
        }
        let w = self.dot_wide(self);
        isqrt_i128(w)
    }

    /// The vector scaled to unit length, rounded toward zero per
    /// component; each component of the result stays within one unit.
    pub fn normalize(&self) -> (r: Point3D)
        requires
            in_range(*self, 0x8_0000_0000),
            dot3(*self, *self) > 0,
        ensures
            r.x == unit3(*self).0,
            r.y == unit3(*self).1,
            r.z == unit3(*self).2,
            in_range(r, SCALE as int),
    {
        let n = self.length_fx();
        proof {
            lemma_dot_self(*self);
            lemma_isqrt_s(dot3(*self, *self) as nat);
            assert(n >= 1) by (nonlinear_arith)
                requires
                    dot3(*self, *self) > 0,
                    n >= 0,
                    dot3(*self, *self) < (n + 1) * (n + 1),
            ;
            lemma_coord_le_root(self.x as int, dot3(*self, *self), n as int);
            lemma_coord_le_root(self.y as int, dot3(*self, *self), n as int);
            lemma_coord_le_root(self.z as int, dot3(*self, *self), n as int);
            lemma_mul_abs_bound(self.x as int, SCALE as int, n as int, SCALE as int);
            lemma_mul_abs_bound(self.y as int, SCALE as int, n as int, SCALE as int);
            lemma_mul_abs_bound(self.z as int, SCALE as int, n as int, SCALE as int);
            lemma_tdiv_abs_bound(self.x * SCALE, n as int, SCALE as int);
            lemma_tdiv_abs_bound(self.y * SCALE, n as int, SCALE as int);
            lemma_tdiv_abs_bound(self.z * SCALE, n as int, SCALE as int);
        }
        let wx = (self.x as i128) * (SCALE as i128);
        let wy = (self.y as i128) * (SCALE as i128);
        let wz = (self.z as i128) * (SCALE as i128);
        Point3D {
            x: crate::fixed::div_i128(wx, n as i128) as i64,
            y: crate::fixed::div_i128(wy, n as i128) as i64,
            z: crate::fixed::div_i128(wz, n as i128) as i64,
        }
    }

    /// True exactly when the vector is zero: one raw unit is the
    /// smallest representable magnitude, so the degenerate test of the
    /// real-valued model becomes a test for exact zero.
    pub fn near_zero(&self) -> (r: bool)
        ensures
            r <==> is_zero(*self),
    {
        self.x == 0 && self.y == 0 && self.z == 0
    }

    /// A vector whose coordinates are uniform draws from `[min, max)`.
    fn random(min: i64, max: i64, rng: &mut rand::rngs::StdRng) -> (r: Point3D)
        requires
            min < max,
        ensures
            min <= r.x < max,
            min <= r.y < max,
            min <= r.z < max,
    {
        let x = gen_range_i64(rng, min, max);
        let y = gen_range_i64(rng, min, max);
        let z = gen_range_i64(rng, min, max);
        Point3D { x, y, z }
    }

    /// A random offset strictly inside the unit ball, found by
    /// rejection sampling over the cube `[-1, 1)^3`.  The number of
    /// attempts is capped; after the cap (odds of about `2^-68`) a
    /// fixed interior vector is returned so that the bound below holds
    /// on every path.
    pub fn random_unit(rng: &mut rand::rngs::StdRng) -> (r: Point3D)
        ensures
            in_range(r, SCALE as int),
            dot3(r, r) < SCALE * SCALE,
    {
        for _attempt in 0..64u32 {
            let p = Point3D::random(-SCALE, SCALE, rng);
            let q = p.dot_wide(&p);
            proof {
                lemma_dot_self(p);
            }
            if q < (SCALE as i128) * (SCALE as i128) {
                return p;
            }
        }
        let f = Point3D { x: 32768, y: 0, z: 0 };
        proof {
            assert(f.x * f.x + f.y * f.y + f.z * f.z < SCALE * SCALE) by (nonlinear_arith)
                requires
                    f.x == 32768 && f.y == 0 && f.z == 0,
            ;
        }
        f
    }
}

/// Each coordinate is bounded in magnitude by the root of the dot
/// product: its square already fits below `(n+1)^2`.
proof fn lemma_coord_le_root(c: int, d: int, n: int)
    requires
        c * c <= d,
        n >= 0,
        d < (n + 1) * (n + 1),
    ensures
        -n <= c <= n,
{
    if c > n {
        lemma_square_ordered(n + 1, c);
    }
    if c < -n {
        lemma_square_ordered(n + 1, -c);
        assert((-c) * (-c) == c * c) by (nonlinear_arith);
    }
}

impl DotProduct for Point3D {
    type Output = i64;

    open spec fn dot_req(&self, rhs: &Point3D) -> bool {
        in_range(*self, 0x1_0000_0000) && in_range(*rhs, 0x1_0000_0000)
    }

    fn dot(&self, rhs: &Self) -> i64 {
        self.dot_fx(rhs)
    }
}

impl Dot for Point3D {
    type Output = i64;

    open spec fn dot_req(&self, rhs: &Point3D) -> bool {
        in_range(*self, 0x1_0000_0000) && in_range(*rhs, 0x1_0000_0000)
    }

    fn dot(&self, rhs: &Self) -> i64 {
        self.dot_fx(rhs)
    }
}

impl CrossProduct for Point3D {
    type Output = Point3D;

    open spec fn cross_req(&self, rhs: &Point3D) -> bool {
        in_range(*self, 0x8000_0000) && in_range(*rhs, 0x8000_0000)
    }

    fn cross(&self, rhs: &Self) -> Point3D {
        self.cross_fx(rhs)
    }
}

impl Length for Point3D {
    type Output = i64;

    open spec fn length_req(&self) -> bool {
        in_range(*self, 0x8000_0000)
    }

    fn length(&self) -> i64 {
        self.length_fx()
    }

    fn length_squared(&self) -> i64 {
        self.length_squared_fx()
    }
}

impl Normalize for Point3D {
    type Output = Point3D;

    open spec fn normalize_req(&self) -> bool {
        in_range(*self, 0x8000_0000) && dot3(*self, *self) > 0
    }

    fn normalize(&self) -> Point3D {
        Point3D::normalize(self)
    }
}

} // verus!
