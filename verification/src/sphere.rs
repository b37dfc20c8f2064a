//! Sphere primitives and their ray-intersection test.
//!
//! The quadratic `a t^2 + 2 h t + c = 0` is solved exactly over the
//! raw integer coordinates: the discriminant's sign, the root
//! selection against the parameter window, and the front-face flag are
//! all decided on exact products, never on rounded values.  A negative
//! radius models a hollow shell: it flips the outward normal.

use vstd::prelude::*;

verus! {

use crate::fixed::SCALE;
use crate::fixed::tdiv;
use crate::fixed::sdiv;
use crate::fixed::clamp_s;
use crate::fixed::isqrt_s;
use crate::fixed::isqrt_i128;
use crate::fixed::lemma_isqrt_below;
use crate::fixed::lemma_mul_abs_bound;
use crate::fixed::lemma_tdiv_bounds;
use crate::fixed::lemma_tdiv_abs_bound;
use crate::hittable::HitRecord;
use crate::hittable::Hittable;
use crate::hittable::rec_wf;
use crate::material::Material;
use crate::material::material_wf;
use crate::point3d::Point3D;
use crate::point3d::dot3;
use crate::point3d::in_range;
use crate::point3d::is_zero;
use crate::point3d::lemma_nonzero_dot;
use crate::point3d::lemma_dot3_bound;
use crate::point3d::COORD_LIMIT;
use crate::point3d::WORLD_LIMIT;
use crate::point3d::UNIT_LIMIT;
use crate::ray::Ray;
use crate::ray::at_x;
use crate::ray::at_y;
use crate::ray::at_z;

#[derive(Clone, Copy, PartialEq, Eq, Structural, Debug)]
pub struct Sphere {
    pub center: Point3D,
    pub radius: i64,
    pub material: Material,
}

/// A sphere the renderer can work with: center and radius within the
/// world bounds, a nonzero radius, and a well-formed material.
pub open spec fn sphere_wf(s: Sphere) -> bool {
    &&& in_range(s.center, WORLD_LIMIT as int)
    &&& s.radius != 0
    &&& -WORLD_LIMIT <= s.radius <= WORLD_LIMIT
    &&& material_wf(s.material)
}

/// `a`: the squared length of the ray direction, in raw units.
pub open spec fn hit_a2(ray: Ray) -> int {
    dot3(ray.direction, ray.direction)
}

/// `h`: half the linear coefficient, the dot of origin-minus-center
/// with the direction.
pub open spec fn hit_hb(s: Sphere, ray: Ray) -> int {
    (ray.origin.x - s.center.x) * ray.direction.x + (ray.origin.y - s.center.y) * ray.direction.y
        + (ray.origin.z - s.center.z) * ray.direction.z
}

/// `c`: the squared distance from origin to center, less the squared
/// radius.
pub open spec fn hit_c2(s: Sphere, ray: Ray) -> int {
    (ray.origin.x - s.center.x) * (ray.origin.x - s.center.x) + (ray.origin.y - s.center.y) * (
    ray.origin.y - s.center.y) + (ray.origin.z - s.center.z) * (ray.origin.z - s.center.z)
        - s.radius * s.radius
}

/// The quarter discriminant `h^2 - a c`; the ray meets the sphere
/// exactly when it is nonnegative.
pub open spec fn hit_disc(s: Sphere, ray: Ray) -> int {
    hit_hb(s, ray) * hit_hb(s, ray) - hit_a2(ray) * hit_c2(s, ray)
}

/// Whether the exact rational root `num / a2` lies in the window
/// `[t_min, t_max]`, decided without division.
pub open spec fn root_in_window(num: int, a2: int, t_min: int, t_max: int) -> bool {
    t_min * a2 <= num * SCALE <= t_max * a2
}

/// The ray parameter at which the sphere is hit, if any: the smaller
/// root when its exact value lies in the window, else the larger root,
/// else nothing.
pub open spec fn hit_t(s: Sphere, ray: Ray, t_min: int, t_max: int) -> Option<int> {
    let a2 = hit_a2(ray);
    let hb = hit_hb(s, ray);
    let disc = hit_disc(s, ray);
    if disc < 0 {
        None
    } else {
        let sq = isqrt_s(disc as nat) as int;
        let n1 = -hb - sq;
        let n2 = -hb + sq;
        if root_in_window(n1, a2, t_min, t_max) {
            Some(tdiv(n1 * SCALE, a2))
        } else if root_in_window(n2, a2, t_min, t_max) {
            Some(tdiv(n2 * SCALE, a2))
        } else {
            None
        }
    }
}

/// How a returned record relates to the sphere and the ray at its
/// parameter `rec.t`: the point is the (range-guarded) point on the
/// ray, the flag tells whether the outward normal opposed the ray, and
/// the normal is the outward one, flipped toward the ray when needed.
pub open spec fn rec_matches(s: Sphere, ray: Ray, rec: HitRecord) -> bool {
    let px = clamp_s(at_x(ray, rec.t as int), -(COORD_LIMIT as int), COORD_LIMIT as int);
    let py = clamp_s(at_y(ray, rec.t as int), -(COORD_LIMIT as int), COORD_LIMIT as int);
    let pz = clamp_s(at_z(ray, rec.t as int), -(COORD_LIMIT as int), COORD_LIMIT as int);
    let od = (px - s.center.x) * ray.direction.x + (py - s.center.y) * ray.direction.y + (pz
        - s.center.z) * ray.direction.z;
    let nx = clamp_s(sdiv((px - s.center.x) * SCALE, s.radius as int), -(UNIT_LIMIT as int),
        UNIT_LIMIT as int);
    let ny = clamp_s(sdiv((py - s.center.y) * SCALE, s.radius as int), -(UNIT_LIMIT as int),
        UNIT_LIMIT as int);
    let nz = clamp_s(sdiv((pz - s.center.z) * SCALE, s.radius as int), -(UNIT_LIMIT as int),
        UNIT_LIMIT as int);
    &&& rec.point.x == px
    &&& rec.point.y == py
    &&& rec.point.z == pz
    &&& (rec.front_face <==> od * s.radius < 0)
    &&& rec.normal.x == if rec.front_face {
        nx
    } else {
        -nx
    }
    &&& rec.normal.y == if rec.front_face {
        ny
    } else {
        -ny
    }
    &&& rec.normal.z == if rec.front_face {
        nz
    } else {
        -nz
    }
    &&& rec.material == s.material
}

/// When a ray may be intersected against a sphere without leaving the
/// model's coordinate bounds.
pub open spec fn sphere_hit_req(s: Sphere, ray: Ray) -> bool {
    &&& sphere_wf(s)
    &&& in_range(ray.origin, COORD_LIMIT as int)
    &&& in_range(ray.direction, COORD_LIMIT as int)
    &&& !is_zero(ray.direction)
}

impl Sphere {
    pub fn new(center: Point3D, radius: i64, material: Material) -> (r: Sphere)
        ensures
            r == (Sphere { center, radius, material }),
    {
        Sphere { center, radius, material }
    }

    /// The outward unit normal at a surface point `p`; the caller must
    /// present a point that is not outside the sphere.
    pub fn normal(&self, p: Point3D) -> (r: Point3D)
        requires
            sphere_wf(*self),
            in_range(p, COORD_LIMIT as int),
            p != self.center,
            ({
                let dx = p.x - self.center.x;
                let dy = p.y - self.center.y;
                let dz = p.z - self.center.z;
                isqrt_s((dx * dx + dy * dy + dz * dz) as nat) <= self.radius
            }),
        ensures
            ({
                let d = Point3D {
                    x: (p.x - self.center.x) as i64,
                    y: (p.y - self.center.y) as i64,
                    z: (p.z - self.center.z) as i64,
                };
                &&& r.x == crate::point3d::unit3(d).0
                &&& r.y == crate::point3d::unit3(d).1
                &&& r.z == crate::point3d::unit3(d).2
            }),
            in_range(r, SCALE as int),
    {
        let d = p.sub(&self.center);
        proof {
            if is_zero(d) {
                assert(p == self.center);
            }
            lemma_nonzero_dot(d);
        }
        d.normalize()
    }

    /// Intersect the ray with this sphere over `[t_min, t_max]`.
    /// Exact: a record comes back precisely when `hit_t` has a value,
    /// its parameter is that value and lies inside the window, and its
    /// fields satisfy `rec_matches`.
    pub fn hit(&self, ray: &Ray, t_min: i64, t_max: i64) -> (r: Option<HitRecord>)
        requires
            sphere_hit_req(*self, *ray),
        ensures
            match r {
                None => hit_t(*self, *ray, t_min as int, t_max as int) is None,
                Some(rec) => {
                    &&& hit_t(*self, *ray, t_min as int, t_max as int) == Some(rec.t as int)
                    &&& t_min <= rec.t <= t_max
                    &&& rec_matches(*self, *ray, rec)
                    &&& rec_wf(rec)
                },
            },
    {
        let ocx = ray.origin.x - self.center.x;
        let ocy = ray.origin.y - self.center.y;
        let ocz = ray.origin.z - self.center.z;
        let oc = Point3D { x: ocx, y: ocy, z: ocz };
        let a2w = ray.direction.dot_wide(&ray.direction);
        let hbw = oc.dot_wide(&ray.direction);
        let ocw = oc.dot_wide(&oc);
        proof {
            lemma_nonzero_dot(ray.direction);
            lemma_dot3_bound(ray.direction, ray.direction, COORD_LIMIT as int, COORD_LIMIT as int);
            lemma_dot3_bound(oc, ray.direction, 1610612736, COORD_LIMIT as int);
            lemma_dot3_bound(oc, oc, 1610612736, 1610612736);
            lemma_mul_abs_bound(self.radius as int, self.radius as int, WORLD_LIMIT as int,
                WORLD_LIMIT as int);
            lemma_mul_abs_bound(hbw as int, hbw as int, 5188146770730811392, 5188146770730811392);
            lemma_mul_abs_bound(a2w as int, hit_c2(*self, *ray), 3458764513820540928,
                8070450532247928832);
        }
        let c2w = ocw - (self.radius as i128) * (self.radius as i128);
        let disc = hbw * hbw - a2w * c2w;
        if disc < 0 {
            return None;
        }
        let sq = isqrt_i128(disc);
        proof {
            lemma_isqrt_below(disc as nat, 7500000000000000000);
        }
        let n1 = -hbw - (sq as i128);
        let n2 = -hbw + (sq as i128);
        let root = match self.pick_root(a2w, n1, n2, t_min, t_max) {
            Some(root) => root,
            None => {
                return None;
            },
        };
        Some(self.make_record(ray, root))
    }

    /// Select the first of the two roots whose exact value lies in the
    /// window, smaller first.
    #[verifier::spinoff_prover]
    fn pick_root(&self, a2w: i128, n1: i128, n2: i128, t_min: i64, t_max: i64) -> (r: Option<i64>)
        requires
            a2w > 0,
            a2w <= 3458764513820540928,
            -12688146770730811392 <= n1 <= 12688146770730811392,
            -12688146770730811392 <= n2 <= 12688146770730811392,
        ensures
            match r {
                None => !root_in_window(n1 as int, a2w as int, t_min as int, t_max as int)
                    && !root_in_window(n2 as int, a2w as int, t_min as int, t_max as int),
                Some(t) => {
                    &&& t_min <= t <= t_max
                    &&& if root_in_window(n1 as int, a2w as int, t_min as int, t_max as int) {
                        t == tdiv(n1 * SCALE, a2w as int)
                    } else {
                        root_in_window(n2 as int, a2w as int, t_min as int, t_max as int) && t
                            == tdiv(n2 * SCALE, a2w as int)
                    }
                },
            },
    {
        proof {
            lemma_mul_abs_bound(t_min as int, a2w as int, 0x8000_0000_0000_0000,
                3458764513820540928);
            lemma_mul_abs_bound(t_max as int, a2w as int, 0x8000_0000_0000_0000,
                3458764513820540928);
            lemma_mul_abs_bound(n1 as int, SCALE as int, 12688146770730811392, SCALE as int);
            lemma_mul_abs_bound(n2 as int, SCALE as int, 12688146770730811392, SCALE as int);
        }
        let lo = (t_min as i128) * a2w;
        let hi = (t_max as i128) * a2w;
        let s1 = n1 * (SCALE as i128);
        let s2 = n2 * (SCALE as i128);
        if lo <= s1 && s1 <= hi {
            proof {
                lemma_tdiv_bounds(s1 as int, a2w as int, t_min as int, t_max as int);
            }
            let t = crate::fixed::div_i128(s1, a2w);
            Some(t as i64)
        } else if lo <= s2 && s2 <= hi {
            proof {
                lemma_tdiv_bounds(s2 as int, a2w as int, t_min as int, t_max as int);
            }
            let t = crate::fixed::div_i128(s2, a2w);
            Some(t as i64)
        } else {
            None
        }
    }

    /// Build the hit record for parameter `root`: range-guarded point,
    /// exact front-face decision, outward normal flipped toward the
    /// ray.
    #[verifier::spinoff_prover]
    fn make_record(&self, ray: &Ray, root: i64) -> (rec: HitRecord)
        requires
            sphere_hit_req(*self, *ray),
        ensures
            rec.t == root,
            rec_matches(*self, *ray, rec),
            rec_wf(rec),
    {
        proof {
            lemma_mul_abs_bound(root as int, ray.direction.x as int, 0x8000_0000_0000_0000,
                COORD_LIMIT as int);
            lemma_mul_abs_bound(root as int, ray.direction.y as int, 0x8000_0000_0000_0000,
                COORD_LIMIT as int);
            lemma_mul_abs_bound(root as int, ray.direction.z as int, 0x8000_0000_0000_0000,
                COORD_LIMIT as int);
            lemma_tdiv_abs_bound((root as int) * (ray.direction.x as int), SCALE as int,
                0x2000_0000_0000_0000_0000);
            lemma_tdiv_abs_bound((root as int) * (ray.direction.y as int), SCALE as int,
                0x2000_0000_0000_0000_0000);
            lemma_tdiv_abs_bound((root as int) * (ray.direction.z as int), SCALE as int,
                0x2000_0000_0000_0000_0000);
        }
        let px = clamp_add(ray.origin.x, crate::fixed::div_i128(
            (root as i128) * (ray.direction.x as i128),
            SCALE as i128,
        ));
        let py = clamp_add(ray.origin.y, crate::fixed::div_i128(
            (root as i128) * (ray.direction.y as i128),
            SCALE as i128,
        ));
        let pz = clamp_add(ray.origin.z, crate::fixed::div_i128(
            (root as i128) * (ray.direction.z as i128),
            SCALE as i128,
        ));
        let point = Point3D { x: px, y: py, z: pz };
        proof {
            lemma_mul_abs_bound(px - self.center.x, ray.direction.x as int, 1610612736,
                COORD_LIMIT as int);
            lemma_mul_abs_bound(py - self.center.y, ray.direction.y as int, 1610612736,
                COORD_LIMIT as int);
            lemma_mul_abs_bound(pz - self.center.z, ray.direction.z as int, 1610612736,
                COORD_LIMIT as int);
        }
        let odw = (px as i128 - self.center.x as i128) * (ray.direction.x as i128) + (py as i128
            - self.center.y as i128) * (ray.direction.y as i128) + (pz as i128
            - self.center.z as i128) * (ray.direction.z as i128);
        let front_face = if self.radius > 0 {
            odw < 0
        } else {
            odw > 0
        };
        proof {
            let od = odw as int;
            let rr = self.radius as int;
            assert((od * rr < 0) <==> ((rr > 0 && od < 0) || (rr < 0 && od > 0)))
                by (nonlinear_arith)
                requires
                    rr != 0,
            ;
        }
        let nx = normal_part(px, self.center.x, self.radius);
        let ny = normal_part(py, self.center.y, self.radius);
        let nz = normal_part(pz, self.center.z, self.radius);
        let normal = if front_face {
            Point3D { x: nx, y: ny, z: nz }
        } else {
            Point3D { x: -nx, y: -ny, z: -nz }
        };
        HitRecord { point, normal, t: root, front_face, material: self.material }
    }
}

/// The sum of a bounded origin coordinate and a step, forced into the
/// coordinate range.
fn clamp_add(o: i64, step: i128) -> (r: i64)
    requires
        -(COORD_LIMIT as int) <= o <= COORD_LIMIT as int,
        -0x8000_0000_0000_0000_0000 <= step <= 0x8000_0000_0000_0000_0000,
    ensures
        r == clamp_s(o + step, -(COORD_LIMIT as int), COORD_LIMIT as int),
{
    let w = (o as i128) + step;
    let c = crate::fixed::clamp_i128(w, -(COORD_LIMIT as i128), COORD_LIMIT as i128);
    c as i64
}

/// One component of the outward normal: the offset from the center
/// scaled to unit length by the radius, range-guarded.
fn normal_part(p: i64, c: i64, radius: i64) -> (r: i64)
    requires
        radius != 0,
        -(COORD_LIMIT as int) <= p <= COORD_LIMIT as int,
        -(WORLD_LIMIT as int) <= c <= WORLD_LIMIT as int,
    ensures
        r == clamp_s(sdiv((p - c) * SCALE, radius as int), -(UNIT_LIMIT as int),
            UNIT_LIMIT as int),
{
    proof {
        lemma_mul_abs_bound((p - c) as int, SCALE as int, 1610612736, SCALE as int);
    }
    let num = ((p as i128) - (c as i128)) * (SCALE as i128);
    let q = if radius > 0 {
        crate::fixed::div_i128(num, radius as i128)
    } else {
        crate::fixed::div_i128(-num, -(radius as i128))
    };
    let c0 = crate::fixed::clamp_i128(q, -(UNIT_LIMIT as i128), UNIT_LIMIT as i128);
    c0 as i64
}

impl Hittable for Sphere {
    open spec fn hit_req(&self, ray: &Ray, t_min: i64, t_max: i64) -> bool {
        sphere_hit_req(*self, *ray)
    }

    fn hit(&self, ray: &Ray, t_min: i64, t_max: i64) -> Option<HitRecord> {
        Sphere::hit(self, ray, t_min, t_max)
    }
}

} // verus!
