//! The camera: an orthonormal viewing basis, a focus-plane viewport
//! and a lens disk for depth of field.
//!
//! The tangent of half the vertical field of view enters as a
//! fixed-point argument; degenerate bases (a zero viewing direction or
//! an up vector parallel to it) fall back to fixed axes instead of
//! dividing by zero.

use vstd::prelude::*;

verus! {

use crate::fixed::SCALE;
use crate::fixed::tdiv;
use crate::fixed::fxmul;
use crate::fixed::lemma_fxmul_abs;
use crate::fixed::lemma_tdiv_abs_bound;
use crate::point3d::Point3D;
use crate::point3d::unit3;
use crate::point3d::in_range;
use crate::point3d::is_zero;
use crate::point3d::lemma_nonzero_dot;
use crate::point3d::WORLD_LIMIT;
use crate::point3d::COORD_LIMIT;
use crate::ray::Ray;
use crate::rng::gen_range_i64;

#[derive(Clone, Copy, PartialEq, Eq, Structural, Debug)]
pub struct Camera {
    pub origin: Point3D,
    pub lower_left_corner: Point3D,
    pub horizontal: Point3D,
    pub vertical: Point3D,
    pub u: Point3D,
    pub v: Point3D,
    pub w: Point3D,
    pub lens_radius: i64,
}

/// The bounds every constructed camera obeys; they keep every ray it
/// generates within the coordinate range of the intersection test.
pub open spec fn cam_wf(c: Camera) -> bool {
    &&& in_range(c.origin, WORLD_LIMIT as int)
    &&& in_range(c.u, SCALE as int)
    &&& in_range(c.v, 131072)
    &&& in_range(c.w, SCALE as int)
    &&& in_range(c.horizontal, 67108864)
    &&& in_range(c.vertical, 134217728)
    &&& -234881024 <= c.lower_left_corner.x - c.origin.x <= 234881024
    &&& -234881024 <= c.lower_left_corner.y - c.origin.y <= 234881024
    &&& -234881024 <= c.lower_left_corner.z - c.origin.z <= 234881024
    &&& 0 <= c.lens_radius <= 131072
}

impl Camera {
    /// Build a camera from look-from, look-at, the view-up vector, the
    /// tangent of half the vertical field of view, the aspect ratio,
    /// the lens aperture and the focus distance.  The two product
    /// preconditions cap the viewport carried to the focus plane, so
    /// that generated rays stay within the world's coordinate range.
    #[verifier::rlimit(100)]
    #[verifier::spinoff_prover]
    pub fn new(
        look_from: Point3D,
        look_at: Point3D,
        vup: Point3D,
        tan_half_vfov: i64,
        aspect_ratio: i64,
        aperture: i64,
        focus_distance: i64,
    ) -> (r: Camera)
        requires
            in_range(look_from, WORLD_LIMIT as int),
            in_range(look_at, WORLD_LIMIT as int),
            in_range(vup, COORD_LIMIT as int),
            0 < tan_half_vfov <= 524288,
            0 < aspect_ratio <= 524288,
            0 <= aperture <= 262144,
            0 < focus_distance <= 134217728,
            0 <= fxmul(focus_distance as int, 2 * tan_half_vfov) <= 67108864,
            0 <= fxmul(focus_distance as int, fxmul(aspect_ratio as int, 2 * tan_half_vfov))
                <= 67108864,
        ensures
            r.origin == look_from,
            r.lens_radius == tdiv(aperture as int, 2),
            ({
                let diff = Point3D {
                    x: (look_from.x - look_at.x) as i64,
                    y: (look_from.y - look_at.y) as i64,
                    z: (look_from.z - look_at.z) as i64,
                };
                if is_zero(diff) {
                    r.w == (Point3D { x: 0i64, y: 0i64, z: SCALE as i64 })
                } else {
                    r.w.x == unit3(diff).0 && r.w.y == unit3(diff).1 && r.w.z == unit3(diff).2
                }
            }),
            ({
                let cu = Point3D {
                    x: tdiv(vup.y * r.w.z - vup.z * r.w.y, SCALE as int) as i64,
                    y: tdiv(vup.z * r.w.x - vup.x * r.w.z, SCALE as int) as i64,
                    z: tdiv(vup.x * r.w.y - vup.y * r.w.x, SCALE as int) as i64,
                };
                if is_zero(cu) {
                    r.u == (Point3D { x: SCALE as i64, y: 0i64, z: 0i64 })
                } else {
                    r.u.x == unit3(cu).0 && r.u.y == unit3(cu).1 && r.u.z == unit3(cu).2
                }
            }),
            r.v.x == tdiv(r.w.y * r.u.z - r.w.z * r.u.y, SCALE as int),
            r.v.y == tdiv(r.w.z * r.u.x - r.w.x * r.u.z, SCALE as int),
            r.v.z == tdiv(r.w.x * r.u.y - r.w.y * r.u.x, SCALE as int),
            ({
                let fh = fxmul(focus_distance as int, 2 * tan_half_vfov);
                let fw = fxmul(focus_distance as int, fxmul(aspect_ratio as int, 2
                    * tan_half_vfov));
                &&& r.horizontal.x == fxmul(fw, r.u.x as int)
                &&& r.horizontal.y == fxmul(fw, r.u.y as int)
                &&& r.horizontal.z == fxmul(fw, r.u.z as int)
                &&& r.vertical.x == fxmul(fh, r.v.x as int)
                &&& r.vertical.y == fxmul(fh, r.v.y as int)
                &&& r.vertical.z == fxmul(fh, r.v.z as int)
            }),
            r.lower_left_corner.x == look_from.x - tdiv(r.horizontal.x as int, 2) - tdiv(
                r.vertical.x as int,
                2,
            ) - fxmul(focus_distance as int, r.w.x as int),
            r.lower_left_corner.y == look_from.y - tdiv(r.horizontal.y as int, 2) - tdiv(
                r.vertical.y as int,
                2,
            ) - fxmul(focus_distance as int, r.w.y as int),
            r.lower_left_corner.z == look_from.z - tdiv(r.horizontal.z as int, 2) - tdiv(
                r.vertical.z as int,
                2,
            ) - fxmul(focus_distance as int, r.w.z as int),
            cam_wf(r),
    {
        let diff = look_from.sub(&look_at);
        let w: Point3D = if diff.near_zero() {
            Point3D { x: 0, y: 0, z: SCALE }
        } else {
            proof {
                lemma_nonzero_dot(diff);
            }
            diff.normalize()
        };
        let cu = vup.cross_fx(&w);
        proof {
            crate::point3d::lemma_cross_bound(vup, w, COORD_LIMIT as int, SCALE as int, 0x8000_0000);
        }
        let u: Point3D = if cu.near_zero() {
            Point3D { x: SCALE, y: 0, z: 0 }
        } else {
            proof {
                lemma_nonzero_dot(cu);
            }
            cu.normalize()
        };
        let v = w.cross_fx(&u);
        proof {
            crate::point3d::lemma_cross_bound(w, u, SCALE as int, SCALE as int, 131072);
        }
        let vh = 2 * tan_half_vfov;
        proof {
            lemma_fxmul_abs(aspect_ratio as int, vh as int, 524288, 1048576, 8388608);
            lemma_fxmul_abs(focus_distance as int, w.x as int, 134217728, SCALE as int, 134217728);
            lemma_fxmul_abs(focus_distance as int, w.y as int, 134217728, SCALE as int, 134217728);
            lemma_fxmul_abs(focus_distance as int, w.z as int, 134217728, SCALE as int, 134217728);
        }
        let vw = crate::fixed::fx_mul(aspect_ratio, vh);
        let fh = crate::fixed::fx_mul(focus_distance, vh);
        let fw = crate::fixed::fx_mul(focus_distance, vw);
        proof {
            lemma_fxmul_abs(fw as int, u.x as int, 67108864, SCALE as int, 67108864);
            lemma_fxmul_abs(fw as int, u.y as int, 67108864, SCALE as int, 67108864);
            lemma_fxmul_abs(fw as int, u.z as int, 67108864, SCALE as int, 67108864);
            lemma_fxmul_abs(fh as int, v.x as int, 67108864, 131072, 134217728);
            lemma_fxmul_abs(fh as int, v.y as int, 67108864, 131072, 134217728);
            lemma_fxmul_abs(fh as int, v.z as int, 67108864, 131072, 134217728);
        }
        let horizontal = Point3D {
            x: crate::fixed::fx_mul(fw, u.x),
            y: crate::fixed::fx_mul(fw, u.y),
            z: crate::fixed::fx_mul(fw, u.z),
        };
        let vertical = Point3D {
            x: crate::fixed::fx_mul(fh, v.x),
            y: crate::fixed::fx_mul(fh, v.y),
            z: crate::fixed::fx_mul(fh, v.z),
        };
        proof {
            lemma_tdiv_abs_bound(horizontal.x as int, 2, 33554432);
            lemma_tdiv_abs_bound(horizontal.y as int, 2, 33554432);
            lemma_tdiv_abs_bound(horizontal.z as int, 2, 33554432);
            lemma_tdiv_abs_bound(vertical.x as int, 2, 67108864);
            lemma_tdiv_abs_bound(vertical.y as int, 2, 67108864);
            lemma_tdiv_abs_bound(vertical.z as int, 2, 67108864);
            crate::fixed::lemma_tdiv_bounds(aperture as int, 2, 0, 131072);
        }
        let fwx = crate::fixed::fx_mul(focus_distance, w.x);
        let fwy = crate::fixed::fx_mul(focus_distance, w.y);
        let fwz = crate::fixed::fx_mul(focus_distance, w.z);
        let lower_left_corner = Point3D {
            x: look_from.x - horizontal.x / 2 - vertical.x / 2 - fwx,
            y: look_from.y - horizontal.y / 2 - vertical.y / 2 - fwy,
            z: look_from.z - horizontal.z / 2 - vertical.z / 2 - fwz,
        };
        Camera {
            origin: look_from,
            lower_left_corner,
            horizontal,
            vertical,
            u,
            v,
            w,
            lens_radius: aperture / 2,
        }
    }

    /// The fields of the standard pinhole camera below.
    pub open spec fn standard_spec() -> Camera {
        Camera {
            origin: Point3D { x: 0i64, y: 0i64, z: 0i64 },
            lower_left_corner: Point3D { x: -116508i64, y: -65536i64, z: -65536i64 },
            horizontal: Point3D { x: 233016i64, y: 0i64, z: 0i64 },
            vertical: Point3D { x: 0i64, y: 131072i64, z: 0i64 },
            u: Point3D { x: 65536i64, y: 0i64, z: 0i64 },
            v: Point3D { x: 0i64, y: 65536i64, z: 0i64 },
            w: Point3D { x: 0i64, y: 0i64, z: 65536i64 },
            lens_radius: 0i64,
        }
    }

    /// A pinhole camera with a 16:9 viewport of height two at focal
    /// length one, sitting at the origin and looking down the negative
    /// z axis.
    pub fn standard() -> (r: Camera)
        ensures
            r == Camera::standard_spec(),
            cam_wf(r),
    {
        Camera {
            origin: Point3D { x: 0, y: 0, z: 0 },
            lower_left_corner: Point3D { x: -116508, y: -65536, z: -65536 },
            horizontal: Point3D { x: 233016, y: 0, z: 0 },
            vertical: Point3D { x: 0, y: 131072, z: 0 },
            u: Point3D { x: SCALE, y: 0, z: 0 },
            v: Point3D { x: 0, y: SCALE, z: 0 },
            w: Point3D { x: 0, y: 0, z: SCALE },
            lens_radius: 0,
        }
    }

    /// The ray through image-plane coordinates `(s, t)` for a given
    /// lens-disk sample `(dx, dy)`; exact in all components.
    pub fn ray_through(&self, s: i64, t: i64, dx: i64, dy: i64) -> (r: Ray)
        requires
            cam_wf(*self),
            0 <= s <= 131072,
            0 <= t <= 131072,
            -SCALE <= dx <= SCALE,
            -SCALE <= dy <= SCALE,
        ensures
            ({
                let lrx = fxmul(self.lens_radius as int, dx as int);
                let lry = fxmul(self.lens_radius as int, dy as int);
                let ox = fxmul(lrx, self.u.x as int) + fxmul(lry, self.v.x as int);
                let oy = fxmul(lrx, self.u.y as int) + fxmul(lry, self.v.y as int);
                let oz = fxmul(lrx, self.u.z as int) + fxmul(lry, self.v.z as int);
                &&& r.origin.x == self.origin.x + ox
                &&& r.origin.y == self.origin.y + oy
                &&& r.origin.z == self.origin.z + oz
                &&& r.direction.x == self.lower_left_corner.x + fxmul(s as int,
                    self.horizontal.x as int,
                ) + fxmul(t as int, self.vertical.x as int) - self.origin.x - ox
                &&& r.direction.y == self.lower_left_corner.y + fxmul(s as int,
                    self.horizontal.y as int,
                ) + fxmul(t as int, self.vertical.y as int) - self.origin.y - oy
                &&& r.direction.z == self.lower_left_corner.z + fxmul(s as int,
                    self.horizontal.z as int,
                ) + fxmul(t as int, self.vertical.z as int) - self.origin.z - oz
            }),
            in_range(r.origin, COORD_LIMIT as int),
            in_range(r.direction, COORD_LIMIT as int),
    {
        proof {
            lemma_fxmul_abs(self.lens_radius as int, dx as int, 131072, SCALE as int, 131072);
            lemma_fxmul_abs(self.lens_radius as int, dy as int, 131072, SCALE as int, 131072);
        }
        let lrx = crate::fixed::fx_mul(self.lens_radius, dx);
        let lry = crate::fixed::fx_mul(self.lens_radius, dy);
        proof {
            lemma_fxmul_abs(lrx as int, self.u.x as int, 131072, SCALE as int, 131072);
            lemma_fxmul_abs(lrx as int, self.u.y as int, 131072, SCALE as int, 131072);
            lemma_fxmul_abs(lrx as int, self.u.z as int, 131072, SCALE as int, 131072);
            lemma_fxmul_abs(lry as int, self.v.x as int, 131072, 131072, 262144);
            lemma_fxmul_abs(lry as int, self.v.y as int, 131072, 131072, 262144);
            lemma_fxmul_abs(lry as int, self.v.z as int, 131072, 131072, 262144);
            lemma_fxmul_abs(s as int, self.horizontal.x as int, 131072, 67108864, 134217728);
            lemma_fxmul_abs(s as int, self.horizontal.y as int, 131072, 67108864, 134217728);
            lemma_fxmul_abs(s as int, self.horizontal.z as int, 131072, 67108864, 134217728);
            lemma_fxmul_abs(t as int, self.vertical.x as int, 131072, 134217728, 268435456);
            lemma_fxmul_abs(t as int, self.vertical.y as int, 131072, 134217728, 268435456);
            lemma_fxmul_abs(t as int, self.vertical.z as int, 131072, 134217728, 268435456);
        }
        let ox = crate::fixed::fx_mul(lrx, self.u.x) + crate::fixed::fx_mul(lry, self.v.x);
        let oy = crate::fixed::fx_mul(lrx, self.u.y) + crate::fixed::fx_mul(lry, self.v.y);
        let oz = crate::fixed::fx_mul(lrx, self.u.z) + crate::fixed::fx_mul(lry, self.v.z);
        let origin = Point3D {
            x: self.origin.x + ox,
            y: self.origin.y + oy,
            z: self.origin.z + oz,
        };
        let direction = Point3D {
            x: self.lower_left_corner.x + crate::fixed::fx_mul(s, self.horizontal.x)
                + crate::fixed::fx_mul(t, self.vertical.x) - self.origin.x - ox,
            y: self.lower_left_corner.y + crate::fixed::fx_mul(s, self.horizontal.y)
                + crate::fixed::fx_mul(t, self.vertical.y) - self.origin.y - oy,
            z: self.lower_left_corner.z + crate::fixed::fx_mul(s, self.horizontal.z)
                + crate::fixed::fx_mul(t, self.vertical.z) - self.origin.z - oz,
        };
        Ray { origin, direction }
    }

    /// The ray through `(s, t)`, jittered over the lens disk for depth
    /// of field.
    pub fn get_ray(&self, s: i64, t: i64, rng: &mut rand::rngs::StdRng) -> (r: Ray)
        requires
            cam_wf(*self),
            0 <= s <= 131072,
            0 <= t <= 131072,
        ensures
            in_range(r.origin, COORD_LIMIT as int),
            in_range(r.direction, COORD_LIMIT as int),
    {
        let (dx, dy) = random_in_unit_disk(rng);
        self.ray_through(s, t, dx, dy)
    }
}

impl Default for Camera {
    /// The pinhole camera of `Camera::standard`.
    fn default() -> (r: Camera)
        ensures
            cam_wf(r),
            r == Camera::standard_spec(),
    {
        Camera::standard()
    }
}

/// A random point strictly inside the unit disk, by rejection sampling
/// over the square; the attempt count is capped, with a fixed interior
/// point as the (practically unreachable) fallback.
pub fn random_in_unit_disk(rng: &mut rand::rngs::StdRng) -> (r: (i64, i64))
    ensures
        -SCALE <= r.0 <= SCALE,
        -SCALE <= r.1 <= SCALE,
        r.0 * r.0 + r.1 * r.1 < SCALE * SCALE,
{
    for _attempt in 0..64u32 {
        let dx = gen_range_i64(rng, -SCALE, SCALE);
        let dy = gen_range_i64(rng, -SCALE, SCALE);
        proof {
            crate::fixed::lemma_mul_abs_bound(dx as int, dx as int, SCALE as int, SCALE as int);
            crate::fixed::lemma_mul_abs_bound(dy as int, dy as int, SCALE as int, SCALE as int);
            crate::point3d::lemma_square_nonneg(dx as int);
            crate::point3d::lemma_square_nonneg(dy as int);
        }
        let q = (dx as i128) * (dx as i128) + (dy as i128) * (dy as i128);
        if q < (SCALE as i128) * (SCALE as i128) {
            return (dx, dy);
        }
    }
    proof {
        assert(32768 * 32768 + 0 * 0 < SCALE * SCALE) by (nonlinear_arith);
    }
    (32768, 0)
}

} // verus!
