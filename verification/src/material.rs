//! Surface scattering: a closed set of material behaviours.
//!
//! The random draws a behaviour consumes (a unit-ball offset, a
//! reflectance coin) enter the deterministic scattering functions as
//! arguments, so those functions carry exact contracts; the
//! `Scatterable` implementations draw the randomness and dispatch.

use vstd::prelude::*;

verus! {

use crate::color::Color;
use crate::color::color_wf;
use crate::fixed::SCALE;
use crate::fixed::tdiv;
use crate::fixed::fxmul;
use crate::fixed::fxdiv;
use crate::fixed::clamp_s;
use crate::fixed::isqrt_s;
use crate::fixed::isqrt_i128;
use crate::fixed::lemma_fxmul_abs;
use crate::fixed::lemma_fxmul_unit;
use crate::fixed::lemma_isqrt_below;
use crate::fixed::lemma_mul_abs_bound;
use crate::fixed::lemma_tdiv_abs_bound;
use crate::fixed::lemma_tdiv_bounds;
use crate::fixed::lemma_tdiv_nonincreasing;
use crate::hittable::HitRecord;
use crate::hittable::rec_wf;
use crate::point3d::Point3D;
use crate::point3d::dot3t;
use crate::point3d::unit3;
use crate::point3d::in_range;
use crate::point3d::is_zero;
use crate::point3d::lemma_dot3_bound;
use crate::point3d::UNIT_LIMIT;
use crate::point3d::COORD_LIMIT;
use crate::ray::Ray;

/// Smallest refraction index the model admits: one eighth.
pub const REFRACTION_MIN: i64 = 8192;

/// Largest refraction index the model admits: eight.
pub const REFRACTION_MAX: i64 = 524288;

/// Every scattered direction stays within 128 units per component.
pub const SCATTER_LIMIT: i64 = 8388608;

#[derive(Clone, Copy, PartialEq, Eq, Structural, Debug)]
pub struct Lambertian {
    pub albedo: Color,
}

#[derive(Clone, Copy, PartialEq, Eq, Structural, Debug)]
pub struct Metal {
    pub albedo: Color,
    pub fuzz: i64,
}

#[derive(Clone, Copy, PartialEq, Eq, Structural, Debug)]
pub struct Dielectric {
    pub refraction_index: i64,
}

#[derive(Clone, Copy, PartialEq, Eq, Structural, Debug)]
pub enum Material {
    Lambertian(Lambertian),
    Metal(Metal),
    Dielectric(Dielectric),
    Light,
}

/// The numeric bounds every material built by the constructors obeys.
pub open spec fn material_wf(m: Material) -> bool {
    match m {
        Material::Lambertian(l) => color_wf(l.albedo),
        Material::Metal(mt) => color_wf(mt.albedo) && 0 <= mt.fuzz <= SCALE,
        Material::Dielectric(d) => REFRACTION_MIN <= d.refraction_index <= REFRACTION_MAX,
        Material::Light => true,
    }
}

impl Lambertian {
    pub fn new(albedo: Color) -> (r: Lambertian)
        requires
            color_wf(albedo),
        ensures
            r.albedo == albedo,
    {
        Lambertian { albedo }
    }
}

impl Metal {
    /// The fuzz radius is forced into `[0, 1]` at construction.
    pub fn new(albedo: Color, fuzz: i64) -> (r: Metal)
        requires
            color_wf(albedo),
        ensures
            r.albedo == albedo,
            r.fuzz == clamp_s(fuzz as int, 0, SCALE as int),
    {
        let f: i64 = if fuzz < 0 {
            0
        } else if fuzz > SCALE {
            SCALE
        } else {
            fuzz
        };
        Metal { albedo, fuzz: f }
    }
}

impl Dielectric {
    pub fn new(refraction_index: i64) -> (r: Dielectric)
        requires
            REFRACTION_MIN <= refraction_index <= REFRACTION_MAX,
        ensures
            r.refraction_index == refraction_index,
    {
        Dielectric { refraction_index }
    }
}

/// The incoming direction `u` mirrored about the normal:
/// `u - 2 (u . n) n` in fixed point.
pub open spec fn reflect3(u: (int, int, int), n: Point3D) -> (int, int, int) {
    let d = tdiv(dot3t(u, n), SCALE as int);
    (u.0 - 2 * fxmul(d, n.x as int), u.1 - 2 * fxmul(d, n.y as int), u.2 - 2 * fxmul(
        d,
        n.z as int,
    ))
}

/// Mirror the (unit) vector `v` about the normal `n`.
pub fn reflect(v: &Point3D, n: &Point3D) -> (r: Point3D)
    requires
        in_range(*v, SCALE as int),
        in_range(*n, UNIT_LIMIT as int),
    ensures
        r.x == reflect3((v.x as int, v.y as int, v.z as int), *n).0,
        r.y == reflect3((v.x as int, v.y as int, v.z as int), *n).1,
        r.z == reflect3((v.x as int, v.y as int, v.z as int), *n).2,
        in_range(r, 1703936),
{
    let dw = v.dot_wide(n);
    proof {
        lemma_dot3_bound(*v, *n, SCALE as int, UNIT_LIMIT as int);
        lemma_tdiv_abs_bound(dw as int, SCALE as int, 393216);
    }
    let d = crate::fixed::div_i128(dw, SCALE as i128) as i64;
    proof {
        lemma_fxmul_abs(d as int, n.x as int, 393216, UNIT_LIMIT as int, 786432);
        lemma_fxmul_abs(d as int, n.y as int, 393216, UNIT_LIMIT as int, 786432);
        lemma_fxmul_abs(d as int, n.z as int, 393216, UNIT_LIMIT as int, 786432);
    }
    Point3D {
        x: v.x - 2 * crate::fixed::fx_mul(d, n.x),
        y: v.y - 2 * crate::fixed::fx_mul(d, n.y),
        z: v.z - 2 * crate::fixed::fx_mul(d, n.z),
    }
}

/// The fifth power of a fixed-point value.
pub open spec fn pow5_fx(x: int) -> int {
    fxmul(x, fxmul(x, fxmul(x, fxmul(x, x))))
}

/// Schlick's reflectance approximation:
/// `r0 + (1 - r0) (1 - cos)^5` with `r0 = ((1 - i) / (1 + i))^2`.
pub open spec fn schlick(cos: int, ref_idx: int) -> int {
    let r0 = fxdiv(SCALE - ref_idx, SCALE + ref_idx);
    let r0s = fxmul(r0, r0);
    r0s + fxmul(SCALE - r0s, pow5_fx(SCALE - cos))
}

/// Schlick's reflectance; the result always lies within `[0, 1]`.
pub fn reflectance(cos: i64, ref_idx: i64) -> (r: i64)
    requires
        0 <= cos <= SCALE,
        1 <= ref_idx <= 0x1000_0000,
    ensures
        r == schlick(cos as int, ref_idx as int),
        0 <= r <= SCALE,
{
    proof {
        lemma_mul_abs_bound(
            SCALE as int - ref_idx as int,
            SCALE as int,
            SCALE as int + ref_idx as int,
            SCALE as int,
        );
        lemma_tdiv_abs_bound(
            (SCALE as int - ref_idx as int) * SCALE,
            SCALE as int + ref_idx as int,
            SCALE as int,
        );
    }
    let r0 = crate::fixed::fx_div(SCALE - ref_idx, SCALE + ref_idx);
    proof {
        lemma_mul_abs_bound(r0 as int, r0 as int, SCALE as int, SCALE as int);
        crate::point3d::lemma_square_nonneg(r0 as int);
        lemma_tdiv_bounds(r0 * r0, SCALE as int, 0, SCALE as int);
    }
    let r0s = crate::fixed::fx_mul(r0, r0);
    let x = SCALE - cos;
    proof {
        lemma_fxmul_unit(x as int, x as int);
    }
    let p2 = crate::fixed::fx_mul(x, x);
    proof {
        lemma_fxmul_unit(x as int, p2 as int);
    }
    let p3 = crate::fixed::fx_mul(x, p2);
    proof {
        lemma_fxmul_unit(x as int, p3 as int);
    }
    let p4 = crate::fixed::fx_mul(x, p3);
    proof {
        lemma_fxmul_unit(x as int, p4 as int);
    }
    let p5 = crate::fixed::fx_mul(x, p4);
    proof {
        lemma_fxmul_unit(SCALE as int - r0s as int, p5 as int);
    }
    let tail = crate::fixed::fx_mul(SCALE - r0s, p5);
    r0s + tail
}

/// The cosine the dielectric model uses: the angle between the reversed
/// incoming unit direction and the normal, forced into `[-1, 1]`.
pub open spec fn cos_in(u: (int, int, int), n: Point3D) -> int {
    clamp_s(tdiv(0 - dot3t(u, n), SCALE as int), -(SCALE as int), SCALE as int)
}

/// Refraction by Snell's law: the perpendicular part is
/// `ratio (u + cos n)`, the parallel part `-sqrt(|1 - |perp|^2|) n`.
pub open spec fn refract3(u: (int, int, int), n: Point3D, ratio: int) -> (int, int, int) {
    let cos = cos_in(u, n);
    let px = fxmul(ratio, u.0 + fxmul(cos, n.x as int));
    let py = fxmul(ratio, u.1 + fxmul(cos, n.y as int));
    let pz = fxmul(ratio, u.2 + fxmul(cos, n.z as int));
    let len = tdiv(px * px + py * py + pz * pz, SCALE as int);
    let d = if SCALE - len >= 0 {
        SCALE - len
    } else {
        len - SCALE
    };
    let c = isqrt_s((d * SCALE) as nat) as int;
    (px - fxmul(c, n.x as int), py - fxmul(c, n.y as int), pz - fxmul(c, n.z as int))
}

/// Refract the unit vector `uv` at a surface with normal `n` and
/// refraction ratio `ratio`.
pub fn refract(uv: &Point3D, n: &Point3D, ratio: i64) -> (r: Point3D)
    requires
        in_range(*uv, SCALE as int),
        in_range(*n, UNIT_LIMIT as int),
        0 <= ratio <= REFRACTION_MAX,
    ensures
        r.x == refract3((uv.x as int, uv.y as int, uv.z as int), *n, ratio as int).0,
        r.y == refract3((uv.x as int, uv.y as int, uv.z as int), *n, ratio as int).1,
        r.z == refract3((uv.x as int, uv.y as int, uv.z as int), *n, ratio as int).2,
        in_range(r, SCATTER_LIMIT as int),
{
    let cos = cos_against(uv, n);
    proof {
        lemma_fxmul_abs(cos as int, n.x as int, SCALE as int, UNIT_LIMIT as int, UNIT_LIMIT as int);
        lemma_fxmul_abs(cos as int, n.y as int, SCALE as int, UNIT_LIMIT as int, UNIT_LIMIT as int);
        lemma_fxmul_abs(cos as int, n.z as int, SCALE as int, UNIT_LIMIT as int, UNIT_LIMIT as int);
    }
    let ix = uv.x + crate::fixed::fx_mul(cos, n.x);
    let iy = uv.y + crate::fixed::fx_mul(cos, n.y);
    let iz = uv.z + crate::fixed::fx_mul(cos, n.z);
    proof {
        lemma_fxmul_abs(ratio as int, ix as int, REFRACTION_MAX as int, 196608, 1572864);
        lemma_fxmul_abs(ratio as int, iy as int, REFRACTION_MAX as int, 196608, 1572864);
        lemma_fxmul_abs(ratio as int, iz as int, REFRACTION_MAX as int, 196608, 1572864);
    }
    let p = Point3D {
        x: crate::fixed::fx_mul(ratio, ix),
        y: crate::fixed::fx_mul(ratio, iy),
        z: crate::fixed::fx_mul(ratio, iz),
    };
    let lw = p.dot_wide(&p);
    proof {
        lemma_dot3_bound(p, p, 1572864, 1572864);
        crate::point3d::lemma_dot_self(p);
        lemma_tdiv_nonincreasing(lw as int, SCALE as int);
        // |lw| <= 3 * 1572864^2 = 113246208 * SCALE.
        lemma_tdiv_abs_bound(lw as int, SCALE as int, 113246208);
    }
    let len = crate::fixed::div_i128(lw, SCALE as i128) as i64;
    let d: i64 = if SCALE - len >= 0 {
        SCALE - len
    } else {
        len - SCALE
    };
    proof {
        lemma_mul_abs_bound(d as int, SCALE as int, 113311744, SCALE as int);
        assert((3145728 as int) * (3145728 as int) == 9895604649984) by (nonlinear_arith);
    }
    let c = isqrt_i128((d as i128) * (SCALE as i128));
    proof {
        lemma_isqrt_below((d * SCALE) as nat, 3145728);
        lemma_fxmul_abs(c as int, n.x as int, 3145728, UNIT_LIMIT as int, 6291456);
        lemma_fxmul_abs(c as int, n.y as int, 3145728, UNIT_LIMIT as int, 6291456);
        lemma_fxmul_abs(c as int, n.z as int, 3145728, UNIT_LIMIT as int, 6291456);
    }
    let rx = p.x - crate::fixed::fx_mul(c, n.x);
    let ry = p.y - crate::fixed::fx_mul(c, n.y);
    let rz = p.z - crate::fixed::fx_mul(c, n.z);
    Point3D { x: rx, y: ry, z: rz }
}

/// The diffuse scatter direction: the normal plus a unit-ball offset,
/// or the normal alone when the sum degenerates to zero.
pub open spec fn lambertian_dir(normal: Point3D, offset: Point3D) -> (int, int, int) {
    let sx = normal.x + offset.x;
    let sy = normal.y + offset.y;
    let sz = normal.z + offset.z;
    if sx == 0 && sy == 0 && sz == 0 {
        (normal.x as int, normal.y as int, normal.z as int)
    } else {
        (sx, sy, sz)
    }
}

/// The metal scatter direction: the mirrored unit direction perturbed
/// by `fuzz` times a unit-ball offset.
pub open spec fn metal_dir(u: (int, int, int), n: Point3D, fuzz: int, offset: Point3D) -> (
    int,
    int,
    int,
) {
    let rf = reflect3(u, n);
    (
        rf.0 + fxmul(fuzz, offset.x as int),
        rf.1 + fxmul(fuzz, offset.y as int),
        rf.2 + fxmul(fuzz, offset.z as int),
    )
}

/// The refraction ratio: the index of the side being left over the
/// side being entered.
pub open spec fn dielectric_ratio(ref_idx: int, front_face: bool) -> int {
    if front_face {
        fxdiv(SCALE as int, ref_idx)
    } else {
        ref_idx
    }
}

/// The sine belonging to a clamped cosine: `sqrt(1 - cos^2)`.
pub open spec fn sin_from_cos(cos: int) -> int {
    isqrt_s(((SCALE - fxmul(cos, cos)) * SCALE) as nat) as int
}

/// Whether a dielectric reflects: either total internal reflection, or
/// the reflectance coin `draw` falls below Schlick's approximation.
pub open spec fn dielectric_reflects(u: (int, int, int), n: Point3D, ratio: int, draw: int) -> bool {
    let cos = cos_in(u, n);
    let cnn = if cos < 0 {
        0
    } else {
        cos
    };
    ratio * sin_from_cos(cos) > SCALE * SCALE || schlick(cnn, ratio) > draw
}

/// The direction a dielectric scatters into.
pub open spec fn dielectric_dir(u: (int, int, int), n: Point3D, ratio: int, draw: int) -> (
    int,
    int,
    int,
) {
    if dielectric_reflects(u, n, ratio, draw) {
        reflect3(u, n)
    } else {
        refract3(u, n, ratio)
    }
}

/// Diffuse scattering: always scatters from the hit point with the
/// albedo as attenuation; `offset` is the random unit-ball draw.
pub fn lambertian_scatter(albedo: Color, hit: &HitRecord, offset: Point3D) -> (r: (Ray, Color))
    requires
        rec_wf(*hit),
        in_range(offset, SCALE as int),
    ensures
        r.1 == albedo,
        r.0.origin == hit.point,
        (r.0.direction.x as int, r.0.direction.y as int, r.0.direction.z as int)
            == lambertian_dir(hit.normal, offset),
        in_range(r.0.direction, 196608),
{
    let sx = hit.normal.x + offset.x;
    let sy = hit.normal.y + offset.y;
    let sz = hit.normal.z + offset.z;
    let dir = if sx == 0 && sy == 0 && sz == 0 {
        hit.normal
    } else {
        Point3D { x: sx, y: sy, z: sz }
    };
    (Ray { origin: hit.point, direction: dir }, albedo)
}

/// Metal scattering on a given unit-ball draw: the ray is absorbed
/// exactly when the perturbed reflection does not leave the surface,
/// that is, when its dot product with the normal is not positive.
pub fn metal_scatter(albedo: Color, fuzz: i64, ray_in: &Ray, hit: &HitRecord, offset: Point3D) -> (r:
    Option<(Ray, Color)>)
    requires
        rec_wf(*hit),
        0 <= fuzz <= SCALE,
        in_range(offset, SCALE as int),
        in_range(ray_in.direction, COORD_LIMIT as int),
        !is_zero(ray_in.direction),
    ensures
        ({
            let dir = metal_dir(unit3(ray_in.direction), hit.normal, fuzz as int, offset);
            match r {
                Some(sc) => dot3t(dir, hit.normal) > 0 && (
                sc.0.direction.x as int,
                sc.0.direction.y as int,
                sc.0.direction.z as int,
                ) == dir && sc.0.origin == hit.point && sc.1 == albedo && in_range(
                    sc.0.direction,
                    1769472,
                ),
                None => dot3t(dir, hit.normal) <= 0,
            }
        }),
{
    proof {
        crate::point3d::lemma_nonzero_dot(ray_in.direction);
    }
    let u = ray_in.direction.normalize();
    let rf = reflect(&u, &hit.normal);
    proof {
        lemma_fxmul_abs(fuzz as int, offset.x as int, SCALE as int, SCALE as int, SCALE as int);
        lemma_fxmul_abs(fuzz as int, offset.y as int, SCALE as int, SCALE as int, SCALE as int);
        lemma_fxmul_abs(fuzz as int, offset.z as int, SCALE as int, SCALE as int, SCALE as int);
    }
    let dir = Point3D {
        x: rf.x + crate::fixed::fx_mul(fuzz, offset.x),
        y: rf.y + crate::fixed::fx_mul(fuzz, offset.y),
        z: rf.z + crate::fixed::fx_mul(fuzz, offset.z),
    };
    let dw = dir.dot_wide(&hit.normal);
    if dw <= 0 {
        None
    } else {
        Some((Ray { origin: hit.point, direction: dir }, albedo))
    }
}

/// Dielectric scattering on a given reflectance coin `draw`: always
/// scatters with white attenuation, reflecting or refracting per
/// `dielectric_reflects`.
pub fn dielectric_scatter(ref_idx: i64, ray_in: &Ray, hit: &HitRecord, draw: i64) -> (r: (
    Ray,
    Color,
))
    requires
        rec_wf(*hit),
        REFRACTION_MIN <= ref_idx <= REFRACTION_MAX,
        in_range(ray_in.direction, COORD_LIMIT as int),
        !is_zero(ray_in.direction),
    ensures
        ({
            let u = unit3(ray_in.direction);
            let ratio = dielectric_ratio(ref_idx as int, hit.front_face);
            let dir = dielectric_dir(u, hit.normal, ratio, draw as int);
            &&& r.1 == Color(SCALE as i64, SCALE as i64, SCALE as i64)
            &&& r.0.origin == hit.point
            &&& (r.0.direction.x as int, r.0.direction.y as int, r.0.direction.z as int) == dir
            &&& in_range(r.0.direction, SCATTER_LIMIT as int)
        }),
{
    let ratio: i64 = if hit.front_face {
        proof {
            lemma_tdiv_bounds(
                (SCALE as int) * (SCALE as int),
                ref_idx as int,
                REFRACTION_MIN as int,
                REFRACTION_MAX as int,
            );
        }
        crate::fixed::fx_div(SCALE, ref_idx)
    } else {
        ref_idx
    };
    proof {
        crate::point3d::lemma_nonzero_dot(ray_in.direction);
    }
    let u = ray_in.direction.normalize();
    let cos = cos_against(&u, &hit.normal);
    let cnn: i64 = if cos < 0 {
        0
    } else {
        cos
    };
    proof {
        lemma_mul_abs_bound(cos as int, cos as int, SCALE as int, SCALE as int);
        crate::point3d::lemma_square_nonneg(cos as int);
        lemma_tdiv_bounds(cos * cos, SCALE as int, 0, SCALE as int);
    }
    let csq = crate::fixed::fx_mul(cos, cos);
    let sarg = SCALE - csq;
    proof {
        lemma_mul_abs_bound(sarg as int, SCALE as int, SCALE as int, SCALE as int);
        assert((65537 as int) * (65537 as int) == 4295098369) by (nonlinear_arith);
    }
    let sin = isqrt_i128((sarg as i128) * (SCALE as i128));
    proof {
        lemma_isqrt_below((sarg * SCALE) as nat, 65537);
    }
    proof {
        lemma_mul_abs_bound(ratio as int, sin as int, REFRACTION_MAX as int, 65537);
    }
    let tir = (ratio as i128) * (sin as i128) > (SCALE as i128) * (SCALE as i128);
    let refl = reflectance(cnn, ratio);
    let dir = if tir || refl > draw {
        reflect(&u, &hit.normal)
    } else {
        refract(&u, &hit.normal, ratio)
    };
    (Ray { origin: hit.point, direction: dir }, Color(SCALE, SCALE, SCALE))
}

pub trait Scatterable {
    /// When the record and the incoming ray are within the model's
    /// bounds for this surface.
    spec fn scatter_req(&self, ray_in: &Ray, hit: &HitRecord) -> bool;

    /// Produce a scattered ray and an attenuation, or report that the
    /// ray was absorbed.  Whatever the random draws, a scattered ray
    /// starts at the hit point, its attenuation is a displayable
    /// color, and its direction is bounded.
    fn scatter(&self, ray_in: &Ray, hit: &HitRecord, rng: &mut rand::rngs::StdRng) -> (r: Option<
        (Ray, Color),
    >)
        requires
            self.scatter_req(ray_in, hit),
        ensures
            match r {
                Some(sc) => sc.0.origin == hit.point && color_wf(sc.1) && in_range(
                    sc.0.direction,
                    SCATTER_LIMIT as int,
                ),
                None => true,
            },
    ;
}

impl Scatterable for Lambertian {
    open spec fn scatter_req(&self, ray_in: &Ray, hit: &HitRecord) -> bool {
        rec_wf(*hit) && color_wf(self.albedo)
    }

    fn scatter(&self, ray_in: &Ray, hit: &HitRecord, rng: &mut rand::rngs::StdRng) -> Option<
        (Ray, Color),
    > {
        let offset = Point3D::random_unit(rng);
        Some(lambertian_scatter(self.albedo, hit, offset))
    }
}

impl Scatterable for Metal {
    open spec fn scatter_req(&self, ray_in: &Ray, hit: &HitRecord) -> bool {
        &&& rec_wf(*hit)
        &&& color_wf(self.albedo)
        &&& 0 <= self.fuzz <= SCALE
        &&& in_range(ray_in.direction, COORD_LIMIT as int)
        &&& !is_zero(ray_in.direction)
    }

    fn scatter(&self, ray_in: &Ray, hit: &HitRecord, rng: &mut rand::rngs::StdRng) -> Option<
        (Ray, Color),
    > {
        let offset = Point3D::random_unit(rng);
        metal_scatter(self.albedo, self.fuzz, ray_in, hit, offset)
    }
}

impl Scatterable for Dielectric {
    open spec fn scatter_req(&self, ray_in: &Ray, hit: &HitRecord) -> bool {
        &&& rec_wf(*hit)
        &&& REFRACTION_MIN <= self.refraction_index <= REFRACTION_MAX
        &&& in_range(ray_in.direction, COORD_LIMIT as int)
        &&& !is_zero(ray_in.direction)
    }

    fn scatter(&self, ray_in: &Ray, hit: &HitRecord, rng: &mut rand::rngs::StdRng) -> Option<
        (Ray, Color),
    > {
        let draw = crate::rng::gen_range_i64(rng, 0, SCALE);
        Some(dielectric_scatter(self.refraction_index, ray_in, hit, draw))
    }
}

impl Scatterable for Material {
    open spec fn scatter_req(&self, ray_in: &Ray, hit: &HitRecord) -> bool {
        &&& material_wf(*self)
        &&& rec_wf(*hit)
        &&& in_range(ray_in.direction, COORD_LIMIT as int)
        &&& !is_zero(ray_in.direction)
    }

    fn scatter(&self, ray_in: &Ray, hit: &HitRecord, rng: &mut rand::rngs::StdRng) -> Option<
        (Ray, Color),
    > {
        match self {
            Material::Lambertian(l) => l.scatter(ray_in, hit, rng),
            Material::Metal(m) => m.scatter(ray_in, hit, rng),
            Material::Dielectric(d) => d.scatter(ray_in, hit, rng),
            Material::Light => None,
        }
    }
}

/// The clamped cosine between the reversed `uv` and `n`; exact per
/// `cos_in`.
fn cos_against(uv: &Point3D, n: &Point3D) -> (r: i64)
    requires
        in_range(*uv, SCALE as int),
        in_range(*n, UNIT_LIMIT as int),
    ensures
        r == cos_in((uv.x as int, uv.y as int, uv.z as int), *n),
        -SCALE <= r <= SCALE,
{
    let dw = uv.dot_wide(n);
    proof {
        lemma_dot3_bound(*uv, *n, SCALE as int, UNIT_LIMIT as int);
        lemma_tdiv_abs_bound(-(dw as int), SCALE as int, 393216);
    }
    let c0 = crate::fixed::div_i128(-dw, SCALE as i128) as i64;
    if c0 < -SCALE {
        -SCALE
    } else if c0 > SCALE {
        SCALE
    } else {
        c0
    }
}

} // verus!
