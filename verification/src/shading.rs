//! A direct-illumination tracer: byte colors, shiny spheres, ambient,
//! point and directional lights with shadows, and mirror recursion.
//!
//! This shader works in screen-ready byte colors; intensities are
//! fixed-point scalars like everywhere else.

use vstd::prelude::*;

verus! {

use crate::fixed::SCALE;
use crate::fixed::tdiv;
use crate::fixed::fxmul;
use crate::fixed::clamp_s;
use crate::fixed::isqrt_s;
use crate::fixed::isqrt_i128;
use crate::fixed::lemma_isqrt_below;
use crate::fixed::lemma_fxmul_unit;
use crate::fixed::lemma_mul_abs_bound;
use crate::fixed::lemma_tdiv_bounds;
use crate::fixed::lemma_tdiv_abs_bound;
use crate::point3d::Point3D;
use crate::point3d::dot3;
use crate::point3d::in_range;
use crate::point3d::is_zero;
use crate::point3d::lemma_dot3_bound;
use crate::point3d::lemma_nonzero_dot;
use crate::point3d::unit3;
use crate::point3d::COORD_LIMIT;
use crate::point3d::WORLD_LIMIT;
use crate::light::Light;
use crate::light::LightType;
use crate::light::light_wf;

/// An RGB color of one byte per channel; arithmetic saturates at the
/// ends of the byte range.
#[derive(Clone, Copy, PartialEq, Eq, Structural, Debug)]
pub struct Color(pub u8, pub u8, pub u8);

impl Default for Color {
    fn default() -> (r: Color)
        ensures
            r == Color(255u8, 255u8, 255u8),
    {
        Color(255, 255, 255)
    }
}

impl Color {
    pub fn black() -> (r: Color)
        ensures
            r == Color(0u8, 0u8, 0u8),
    {
        Color(0, 0, 0)
    }

    /// Saturating channelwise sum.
    pub fn add(&self, rhs: &Color) -> (r: Color)
        ensures
            r.0 == clamp_s(self.0 + rhs.0, 0, 255),
            r.1 == clamp_s(self.1 + rhs.1, 0, 255),
            r.2 == clamp_s(self.2 + rhs.2, 0, 255),
    {
        Color(
            sat_byte(self.0 as i64 + rhs.0 as i64),
            sat_byte(self.1 as i64 + rhs.1 as i64),
            sat_byte(self.2 as i64 + rhs.2 as i64),
        )
    }

    /// Saturating channelwise difference.
    pub fn sub(&self, rhs: &Color) -> (r: Color)
        ensures
            r.0 == clamp_s(self.0 - rhs.0, 0, 255),
            r.1 == clamp_s(self.1 - rhs.1, 0, 255),
            r.2 == clamp_s(self.2 - rhs.2, 0, 255),
    {
        Color(
            sat_byte(self.0 as i64 - rhs.0 as i64),
            sat_byte(self.1 as i64 - rhs.1 as i64),
            sat_byte(self.2 as i64 - rhs.2 as i64),
        )
    }

    /// Each channel scaled by a nonnegative fixed-point factor,
    /// rounded to the nearest byte and saturated.
    pub fn mul(&self, m: i64) -> (r: Color)
        requires
            0 <= m <= 0x1_0000_0000,
        ensures
            r.0 == clamp_s(tdiv(self.0 * m + 32768, SCALE as int), 0, 255),
            r.1 == clamp_s(tdiv(self.1 * m + 32768, SCALE as int), 0, 255),
            r.2 == clamp_s(tdiv(self.2 * m + 32768, SCALE as int), 0, 255),
    {
        Color(
            scale_byte(self.0, m),
            scale_byte(self.1, m),
            scale_byte(self.2, m),
        )
    }
}

/// A channel value forced back into a byte.
fn sat_byte(v: i64) -> (r: u8)
    requires
        -0x7fff_ffff <= v <= 0x7fff_ffff,
    ensures
        r == clamp_s(v as int, 0, 255),
{
    if v < 0 {
        0
    } else if v > 255 {
        255
    } else {
        v as u8
    }
}

/// One channel scaled by a fixed-point factor, rounded to nearest.
fn scale_byte(c: u8, m: i64) -> (r: u8)
    requires
        0 <= m <= 0x1_0000_0000,
    ensures
        r == clamp_s(tdiv(c * m + 32768, SCALE as int), 0, 255),
{
    proof {
        lemma_mul_abs_bound(c as int, m as int, 255, 0x1_0000_0000);
        lemma_tdiv_bounds((c as int) * m + 32768, SCALE as int, 0, 0x7fff_ffff);
    }
    let w: i128 = (c as i128) * (m as i128) + 32768;
    let q = crate::fixed::div_i128(w, SCALE as i128);
    sat_byte(q as i64)
}

/// A sphere with a surface color, a shininess exponent and a mirror
/// share for the direct-illumination shader.
#[derive(Clone, Copy, PartialEq, Eq, Structural, Debug)]
pub struct Sphere {
    pub center: Point3D,
    pub radius: i64,
    pub color: Color,
    pub specular: i32,
    pub reflective: i64,
}

/// A usable shaded sphere: world-bounded geometry, a mirror share
/// within `[0, 1]` and a shininess of at least minus one (minus one
/// switches the specular term off).
pub open spec fn shaded_wf(s: Sphere) -> bool {
    &&& in_range(s.center, WORLD_LIMIT as int)
    &&& s.radius != 0
    &&& -WORLD_LIMIT <= s.radius <= WORLD_LIMIT
    &&& 0 <= s.reflective <= SCALE
    &&& s.specular >= -1
}

/// Every sphere of the list is well formed.
pub open spec fn shaded_world_wf(world: Seq<Sphere>) -> bool {
    forall|i: int| 0 <= i < world.len() ==> shaded_wf(#[trigger] world[i])
}

/// The quarter discriminant of the ray/sphere quadratic.
pub open spec fn q_disc(o: Point3D, d: Point3D, s: Sphere) -> int {
    let hb = (o.x - s.center.x) * d.x + (o.y - s.center.y) * d.y + (o.z - s.center.z) * d.z;
    let a2 = dot3(d, d);
    let c2 = (o.x - s.center.x) * (o.x - s.center.x) + (o.y - s.center.y) * (o.y - s.center.y) + (
    o.z - s.center.z) * (o.z - s.center.z) - s.radius * s.radius;
    hb * hb - a2 * c2
}

/// The larger of the two intersection parameters, saturated into the
/// representable range.
pub open spec fn q_root_plus(o: Point3D, d: Point3D, s: Sphere) -> int {
    let hb = (o.x - s.center.x) * d.x + (o.y - s.center.y) * d.y + (o.z - s.center.z) * d.z;
    let sq = isqrt_s(q_disc(o, d, s) as nat) as int;
    clamp_s(tdiv((-hb + sq) * SCALE, dot3(d, d)), -0x7fff_ffff_ffff_ffff, 0x7fff_ffff_ffff_ffff)
}

/// The smaller of the two intersection parameters, saturated into the
/// representable range.
pub open spec fn q_root_minus(o: Point3D, d: Point3D, s: Sphere) -> int {
    let hb = (o.x - s.center.x) * d.x + (o.y - s.center.y) * d.y + (o.z - s.center.z) * d.z;
    let sq = isqrt_s(q_disc(o, d, s) as nat) as int;
    clamp_s(tdiv((-hb - sq) * SCALE, dot3(d, d)), -0x7fff_ffff_ffff_ffff, 0x7fff_ffff_ffff_ffff)
}

/// When a ray may be intersected against a shaded sphere.
pub open spec fn shaded_ray_req(o: Point3D, d: Point3D) -> bool {
    &&& in_range(o, COORD_LIMIT as int)
    &&& in_range(d, COORD_LIMIT as int)
    &&& !is_zero(d)
}

/// Both intersection parameters of the ray with the sphere, larger
/// root first, or nothing when the ray misses.
pub fn intersect_ray_sphere(o: Point3D, d: Point3D, sphere: &Sphere) -> (r: Option<(i64, i64)>)
    requires
        shaded_ray_req(o, d),
        shaded_wf(*sphere),
    ensures
        match r {
            None => q_disc(o, d, *sphere) < 0,
            Some(ts) => {
                &&& q_disc(o, d, *sphere) >= 0
                &&& ts.0 == q_root_plus(o, d, *sphere)
                &&& ts.1 == q_root_minus(o, d, *sphere)
            },
        },
{
    let ocx = o.x - sphere.center.x;
    let ocy = o.y - sphere.center.y;
    let ocz = o.z - sphere.center.z;
    let oc = Point3D { x: ocx, y: ocy, z: ocz };
    let a2w = d.dot_wide(&d);
    let hbw = oc.dot_wide(&d);
    let ocw = oc.dot_wide(&oc);
    proof {
        lemma_nonzero_dot(d);
        lemma_dot3_bound(d, d, COORD_LIMIT as int, COORD_LIMIT as int);
        lemma_dot3_bound(oc, d, 1610612736, COORD_LIMIT as int);
        lemma_dot3_bound(oc, oc, 1610612736, 1610612736);
        lemma_mul_abs_bound(sphere.radius as int, sphere.radius as int, WORLD_LIMIT as int,
            WORLD_LIMIT as int);
        lemma_mul_abs_bound(hbw as int, hbw as int, 5188146770730811392, 5188146770730811392);
        lemma_mul_abs_bound(a2w as int,
            ocw - sphere.radius as int * sphere.radius as int,
            3458764513820540928, 8070450532247928832);
    }
    let c2w = ocw - (sphere.radius as i128) * (sphere.radius as i128);
    let disc = hbw * hbw - a2w * c2w;
    if disc < 0 {
        return None;
    }
    let sq = isqrt_i128(disc);
    proof {
        lemma_isqrt_below(disc as nat, 7500000000000000000);
        lemma_mul_abs_bound((-(hbw as int) + sq), SCALE as int, 12688146770730811392, SCALE as int);
        lemma_mul_abs_bound((-(hbw as int) - sq), SCALE as int, 12688146770730811392, SCALE as int);
    }
    let t1 = saturating_div((-hbw + sq as i128) * (SCALE as i128), a2w);
    let t2 = saturating_div((-hbw - sq as i128) * (SCALE as i128), a2w);
    Some((t1, t2))
}

/// Truncating division saturated into the `i64` range.
fn saturating_div(num: i128, den: i128) -> (r: i64)
    requires
        den > 0,
    ensures
        r == clamp_s(tdiv(num as int, den as int), -0x7fff_ffff_ffff_ffff, 0x7fff_ffff_ffff_ffff),
{
    proof {
        crate::fixed::lemma_tdiv_nonincreasing(num as int, den as int);
    }
    let q = num / den;
    if q < -0x7fff_ffff_ffff_ffff {
        -0x7fff_ffff_ffff_ffff
    } else if q > 0x7fff_ffff_ffff_ffff {
        0x7fff_ffff_ffff_ffff
    } else {
        q as i64
    }
}

/// The state of the closest-intersection scan over a prefix of the
/// sphere list: the smallest parameter seen so far (starting from the
/// far limit of the representable range) and the index of its sphere.
pub open spec fn shaded_closest(
    spheres: Seq<Sphere>,
    o: Point3D,
    d: Point3D,
    t_min: int,
    t_max: int,
) -> (int, Option<int>)
    decreases spheres.len(),
{
    if spheres.len() == 0 {
        (0x7fff_ffff_ffff_ffff, None)
    } else {
        let prev = shaded_closest(spheres.drop_last(), o, d, t_min, t_max);
        let j = spheres.len() - 1;
        let s = spheres.last();
        if q_disc(o, d, s) < 0 {
            prev
        } else {
            let t1 = q_root_plus(o, d, s);
            let t2 = q_root_minus(o, d, s);
            let mid: (int, Option<int>) = if t1 < prev.0 && t_min < t1 && t1 < t_max {
                (t1, Some(j as int))
            } else {
                prev
            };
            if t2 < mid.0 && t_min < t2 && t2 < t_max {
                (t2, Some(j as int))
            } else {
                mid
            }
        }
    }
}

/// The closest intersection of the ray with any sphere of the list,
/// with the winning sphere itself; both roots of every sphere compete.
pub fn closest_intersection(
    o: Point3D,
    d: Point3D,
    t_min: i64,
    t_max: i64,
    spheres: &Vec<Sphere>,
) -> (r: (Option<Sphere>, i64))
    requires
        shaded_ray_req(o, d),
        shaded_world_wf(spheres@),
    ensures
        ({
            let st = shaded_closest(spheres@, o, d, t_min as int, t_max as int);
            &&& r.1 == st.0
            &&& match r.0 {
                None => st.1 is None,
                Some(s) => st.1 matches Some(j) && 0 <= j < spheres@.len() && s == spheres@[j],
            }
        }),
{
    let mut t_closest: i64 = 0x7fff_ffff_ffff_ffff;
    let mut found: Option<Sphere> = None;
    for i in 0..spheres.len()
        invariant
            shaded_ray_req(o, d),
            shaded_world_wf(spheres@),
            ({
                let st = shaded_closest(spheres@.subrange(0, i as int), o, d, t_min as int,
                    t_max as int);
                &&& t_closest == st.0
                &&& match found {
                    None => st.1 is None,
                    Some(s) => st.1 matches Some(j) && 0 <= j < i && s == spheres@[j],
                }
            }),
    {
        let s = spheres[i];
        proof {
            assert(spheres@.subrange(0, i + 1).drop_last() =~= spheres@.subrange(0, i as int));
            assert(spheres@.subrange(0, i + 1).last() == spheres@[i as int]);
        }
        match intersect_ray_sphere(o, d, &s) {
            Some((t1, t2)) => {
                if t1 < t_closest && t_min < t1 && t1 < t_max {
                    t_closest = t1;
                    found = Some(s);
                }
                if t2 < t_closest && t_min < t2 && t2 < t_max {
                    t_closest = t2;
                    found = Some(s);
                }
            },
            None => {},
        }
    }
    proof {
        assert(spheres@.subrange(0, spheres@.len() as int) =~= spheres@);
    }
    (found, t_closest)
}

/// The mirror image of `v` about the normal: `2 n (n . v) - v`.
pub open spec fn reflect_ray3(v: Point3D, n: Point3D) -> (int, int, int) {
    let c = tdiv(dot3(n, v), SCALE as int);
    (
        2 * fxmul(c, n.x as int) - v.x,
        2 * fxmul(c, n.y as int) - v.y,
        2 * fxmul(c, n.z as int) - v.z,
    )
}

/// Mirror `v` about the unit normal `n`, exact per `reflect_ray3`.
pub fn reflect_ray(v: Point3D, n: Point3D) -> (r: Point3D)
    requires
        in_range(v, COORD_LIMIT as int),
        in_range(n, SCALE as int),
    ensures
        r.x == reflect_ray3(v, n).0,
        r.y == reflect_ray3(v, n).1,
        r.z == reflect_ray3(v, n).2,
        in_range(r, 0x2_0000_0000),
{
    let dw = n.dot_wide(&v);
    proof {
        lemma_dot3_bound(n, v, SCALE as int, COORD_LIMIT as int);
        lemma_tdiv_abs_bound(dw as int, SCALE as int, 0xc000_0000);
        crate::fixed::lemma_fxmul_abs(tdiv(dw as int, SCALE as int), n.x as int, 0xc000_0000,
            SCALE as int, 0xc000_0000);
        crate::fixed::lemma_fxmul_abs(tdiv(dw as int, SCALE as int), n.y as int, 0xc000_0000,
            SCALE as int, 0xc000_0000);
        crate::fixed::lemma_fxmul_abs(tdiv(dw as int, SCALE as int), n.z as int, 0xc000_0000,
            SCALE as int, 0xc000_0000);
    }
    let c = crate::fixed::div_i128(dw, SCALE as i128) as i64;
    Point3D {
        x: 2 * crate::fixed::fx_mul(c, n.x) - v.x,
        y: 2 * crate::fixed::fx_mul(c, n.y) - v.y,
        z: 2 * crate::fixed::fx_mul(c, n.z) - v.z,
    }
}

/// The `e`-th power of a fixed-point value in `[0, 1]`.
pub open spec fn pow_fx(b: int, e: nat) -> int
    decreases e,
{
    if e == 0 {
        SCALE as int
    } else {
        fxmul(b, pow_fx(b, (e - 1) as nat))
    }
}

/// Iterated fixed-point power; stays within `[0, 1]`.
pub fn fx_pow(b: i64, e: u32) -> (r: i64)
    requires
        0 <= b <= SCALE,
    ensures
        r == pow_fx(b as int, e as nat),
        0 <= r <= SCALE,
{
    let mut acc: i64 = SCALE;
    let mut k: u32 = 0;
    while k < e
        invariant
            0 <= b <= SCALE,
            0 <= acc <= SCALE,
            k <= e,
            acc == pow_fx(b as int, k as nat),
        decreases e - k,
    {
        proof {
            lemma_fxmul_unit(b as int, acc as int);
        }
        acc = crate::fixed::fx_mul(b, acc);
        k = k + 1;
    }
    acc
}

/// Every light of the list is well formed.
pub open spec fn lights_wf(lights: Seq<Light>) -> bool {
    forall|i: int| 0 <= i < lights.len() ==> light_wf(#[trigger] lights[i])
}

/// The diffuse-plus-specular contribution of one unshadowed light.
pub open spec fn lit_contrib(intensity: int, normal: Point3D, lv: Point3D, v: Point3D, s: int)
    -> int {
    let nlen = isqrt_s(dot3(normal, normal) as nat) as int;
    let llen = isqrt_s(dot3(lv, lv) as nat) as int;
    if nlen == 0 || llen == 0 {
        0
    } else {
        let dw = dot3(normal, lv);
        let diffuse = if dw > 0 {
            clamp_s(tdiv(intensity * dw, nlen * llen), 0, intensity)
        } else {
            0
        };
        let specular = if s == -1 {
            0
        } else {
            let rv = reflect_ray3(lv, normal);
            let rlen = isqrt_s((rv.0 * rv.0 + rv.1 * rv.1 + rv.2 * rv.2) as nat) as int;
            let vlen = isqrt_s(dot3(v, v) as nat) as int;
            if rlen == 0 || vlen == 0 {
                0
            } else {
                let dw2 = rv.0 * v.x + rv.1 * v.y + rv.2 * v.z;
                if dw2 > 0 {
                    fxmul(
                        intensity,
                        pow_fx(clamp_s(tdiv(dw2 * SCALE, rlen * vlen), 0, SCALE as int), s as nat),
                    )
                } else {
                    0
                }
            }
        };
        diffuse + specular
    }
}

/// What one light adds at a surface point: its intensity for ambient
/// lights, nothing when it is shadowed or degenerate, and otherwise
/// the diffuse-plus-specular term.
pub open spec fn light_contrib_of(
    l: Light,
    point: Point3D,
    normal: Point3D,
    v: Point3D,
    s: int,
    spheres: Seq<Sphere>,
) -> int {
    if l.typ == LightType::Ambient {
        l.intensity as int
    } else {
        match l.point {
            Some(lp) => {
                let pl = l.typ == LightType::Point;
                let lv = if pl {
                    Point3D {
                        x: (lp.x - point.x) as i64,
                        y: (lp.y - point.y) as i64,
                        z: (lp.z - point.z) as i64,
                    }
                } else {
                    lp
                };
                let tm: int = if pl {
                    SCALE as int
                } else {
                    0x7fff_ffff_ffff_ffff
                };
                if is_zero(lv) {
                    0
                } else if shaded_closest(spheres, point, lv, 66, tm).1 is Some {
                    0
                } else {
                    lit_contrib(l.intensity as int, normal, lv, v, s)
                }
            },
            None => 0,
        }
    }
}

/// The sum of all the lights' contributions.
pub open spec fn light_sum(
    lights: Seq<Light>,
    point: Point3D,
    normal: Point3D,
    v: Point3D,
    s: int,
    spheres: Seq<Sphere>,
) -> int
    decreases lights.len(),
{
    if lights.len() == 0 {
        0
    } else {
        light_sum(lights.drop_last(), point, normal, v, s, spheres) + light_contrib_of(
            lights.last(),
            point,
            normal,
            v,
            s,
            spheres,
        )
    }
}

/// The total light intensity arriving at a surface point: the sum of
/// the ambient terms plus, for each unshadowed point or directional
/// light, a diffuse term and (for shiny surfaces) a specular term.
/// Each light contributes at most twice its intensity, so the result
/// is bounded by twice one unit per light.
pub fn compute_lighting(
    point: Point3D,
    normal: Point3D,
    v: Point3D,
    s: i32,
    lights: &Vec<Light>,
    spheres: &Vec<Sphere>,
) -> (r: i64)
    requires
        in_range(point, WORLD_LIMIT as int),
        in_range(normal, SCALE as int),
        in_range(v, COORD_LIMIT as int),
        s >= -1,
        lights_wf(lights@),
        lights@.len() <= 16384,
        shaded_world_wf(spheres@),
    ensures
        0 <= r <= 131072 * lights@.len(),
        r == light_sum(lights@, point, normal, v, s as int, spheres@),
{
    let mut acc: i64 = 0;
    for i in 0..lights.len()
        invariant
            in_range(point, WORLD_LIMIT as int),
            in_range(normal, SCALE as int),
            in_range(v, COORD_LIMIT as int),
            s >= -1,
            lights_wf(lights@),
            lights@.len() <= 16384,
            shaded_world_wf(spheres@),
            0 <= acc <= 131072 * i,
            acc == light_sum(lights@.subrange(0, i as int), point, normal, v, s as int, spheres@),
    {
        let light = lights[i];
        proof {
            assert(light_wf(lights@[i as int]));
            assert(lights@.subrange(0, i + 1).drop_last() =~= lights@.subrange(0, i as int));
            assert(lights@.subrange(0, i + 1).last() == lights@[i as int]);
        }
        let contribution: i64 = if matches!(light.typ, LightType::Ambient) {
            light.intensity
        } else {
            match light.point {
                Some(lp) => {
                    let point_light = matches!(light.typ, LightType::Point);
                    let lv = if point_light {
                        lp.sub(&point)
                    } else {
                        lp
                    };
                    let t_max_l: i64 = if point_light {
                        SCALE
                    } else {
                        0x7fff_ffff_ffff_ffff
                    };
                    if lv.near_zero() {
                        0
                    } else {
                        let (shadow, _) = closest_intersection(point, lv, 66, t_max_l, spheres);
                        match shadow {
                            Some(_) => 0,
                            None => lit_contribution(light.intensity, normal, lv, v, s),
                        }
                    }
                },
                None => 0,
            }
        };
        proof {
            assert(contribution == light_contrib_of(lights@[i as int], point, normal, v, s as int,
                spheres@));
        }
        acc = acc + contribution;
    }
    proof {
        assert(lights@.subrange(0, lights@.len() as int) =~= lights@);
    }
    acc
}

/// The diffuse plus specular contribution of one unshadowed light of
/// the given intensity; at most twice the intensity in total.
fn lit_contribution(intensity: i64, normal: Point3D, lv: Point3D, v: Point3D, s: i32) -> (r: i64)
    requires
        0 <= intensity <= SCALE,
        in_range(normal, SCALE as int),
        in_range(lv, COORD_LIMIT as int),
        in_range(v, COORD_LIMIT as int),
        s >= -1,
    ensures
        0 <= r <= 2 * intensity,
        r == lit_contrib(intensity as int, normal, lv, v, s as int),
{
    let mut total: i64 = 0;
    let nlen = normal.length_fx();
    let llen = lv.length_fx();
    if nlen == 0 || llen == 0 {
        return 0;
    }
    let dw = normal.dot_wide(&lv);
    proof {
        lemma_dot3_bound(normal, lv, SCALE as int, COORD_LIMIT as int);
        lemma_mul_abs_bound(intensity as int, dw as int, SCALE as int, 0xc000_0000_0000);
        lemma_mul_abs_bound(nlen as int, llen as int, 0x7fff_ffff_ffff_ffff,
            0x7fff_ffff_ffff_ffff);
        assert((nlen as int) * (llen as int) > 0) by (nonlinear_arith)
            requires
                nlen > 0,
                llen > 0,
        ;
    }
    if dw > 0 {
        // diffuse: intensity * (n . l) / (|n| |l|), capped at the
        // intensity itself to guard the rounding of the lengths
        let q = crate::fixed::div_i128((intensity as i128) * dw, (nlen as i128) * (llen as i128));
        total = if q > intensity as i128 {
            intensity
        } else if q < 0 {
            0
        } else {
            q as i64
        };
    }
    if s != -1 {
        let rv = reflect_ray(lv, normal);
        let rlen = rv.length_fx();
        let vlen = v.length_fx();
        if rlen > 0 && vlen > 0 {
            let dw2 = rv.dot_wide(&v);
            if dw2 > 0 {
                proof {
                    lemma_dot3_bound(rv, v, 0x2_0000_0000, COORD_LIMIT as int);
                    lemma_mul_abs_bound(dw2 as int, SCALE as int, 0x1_8000_0000_0000_0000,
                        SCALE as int);
                    lemma_mul_abs_bound(rlen as int, vlen as int, 0x7fff_ffff_ffff_ffff,
                        0x7fff_ffff_ffff_ffff);
                    assert((rlen as int) * (vlen as int) > 0) by (nonlinear_arith)
                        requires
                            rlen > 0,
                            vlen > 0,
                    ;
                }
                // base = (r . v) / (|r| |v|), forced into [0, 1]
                let q2 = crate::fixed::div_i128(
                    dw2 * (SCALE as i128),
                    (rlen as i128) * (vlen as i128),
                );
                let base: i64 = if q2 > SCALE as i128 {
                    SCALE
                } else if q2 < 0 {
                    0
                } else {
                    q2 as i64
                };
                let pw = fx_pow(base, s as u32);
                proof {
                    lemma_fxmul_unit(intensity as int, pw as int);
                }
                total = total + crate::fixed::fx_mul(intensity, pw);
            }
        }
    }
    total
}

/// One world coordinate of the point at parameter `t` along the ray,
/// forced into the world bounds.
fn at_world(o: i64, t: i64, d: i64) -> (r: i64)
    requires
        -(WORLD_LIMIT as int) <= o <= WORLD_LIMIT as int,
        -(COORD_LIMIT as int) <= d <= COORD_LIMIT as int,
    ensures
        r == clamp_s(o + tdiv(t * d, SCALE as int), -(WORLD_LIMIT as int), WORLD_LIMIT as int),
{
    proof {
        lemma_mul_abs_bound(t as int, d as int, 0x8000_0000_0000_0000, COORD_LIMIT as int);
        lemma_tdiv_abs_bound((t as int) * (d as int), SCALE as int, 0x2000_0000_0000_0000_0000);
    }
    let step = crate::fixed::div_i128((t as i128) * (d as i128), SCALE as i128);
    let w = (o as i128) + step;
    let c = crate::fixed::clamp_i128(w, -(WORLD_LIMIT as i128), WORLD_LIMIT as i128);
    c as i64
}

/// Trace a ray through the shaded world: shade the closest sphere by
/// direct illumination, and blend in the mirror image for reflective
/// surfaces until the recursion budget runs out.  A ray that hits
/// nothing is black.
pub fn trace_ray(
    o: Point3D,
    d: Point3D,
    t_min: i64,
    t_max: i64,
    recursion_depth: u32,
    lights: &Vec<Light>,
    spheres: &Vec<Sphere>,
) -> (r: Color)
    requires
        in_range(o, WORLD_LIMIT as int),
        in_range(d, COORD_LIMIT as int),
        !is_zero(d),
        lights_wf(lights@),
        lights@.len() <= 16384,
        shaded_world_wf(spheres@),
    ensures
        shaded_closest(spheres@, o, d, t_min as int, t_max as int).1 is None ==> r == Color(
            0u8,
            0u8,
            0u8,
        ),
        ({
            let st = shaded_closest(spheres@, o, d, t_min as int, t_max as int);
            st.1 matches Some(j) ==> {
                let sp = spheres@[j];
                let p = Point3D {
                    x: clamp_s(o.x + tdiv(st.0 * d.x, SCALE as int), -(WORLD_LIMIT as int),
                    WORLD_LIMIT as int) as i64,
                    y: clamp_s(o.y + tdiv(st.0 * d.y, SCALE as int), -(WORLD_LIMIT as int),
                    WORLD_LIMIT as int) as i64,
                    z: clamp_s(o.z + tdiv(st.0 * d.z, SCALE as int), -(WORLD_LIMIT as int),
                    WORLD_LIMIT as int) as i64,
                };
                let dp = Point3D {
                    x: (p.x - sp.center.x) as i64,
                    y: (p.y - sp.center.y) as i64,
                    z: (p.z - sp.center.z) as i64,
                };
                if is_zero(dp) {
                    r == Color(0u8, 0u8, 0u8)
                } else if recursion_depth == 0 || sp.reflective <= 0 {
                    let n = Point3D {
                        x: unit3(dp).0 as i64,
                        y: unit3(dp).1 as i64,
                        z: unit3(dp).2 as i64,
                    };
                    let nv = Point3D { x: (-d.x) as i64, y: (-d.y) as i64, z: (-d.z) as i64 };
                    let inten = light_sum(lights@, p, n, nv, sp.specular as int, spheres@);
                    &&& r.0 == clamp_s(tdiv(sp.color.0 * inten + 32768, SCALE as int), 0, 255)
                    &&& r.1 == clamp_s(tdiv(sp.color.1 * inten + 32768, SCALE as int), 0, 255)
                    &&& r.2 == clamp_s(tdiv(sp.color.2 * inten + 32768, SCALE as int), 0, 255)
                } else {
                    true
                }
            }
        }),
    decreases recursion_depth,
{
    let (found, t_closest) = closest_intersection(o, d, t_min, t_max, spheres);
    let sphere = match found {
        None => {
            return Color::black();
        },
        Some(sphere) => sphere,
    };
    let p = Point3D {
        x: at_world(o.x, t_closest, d.x),
        y: at_world(o.y, t_closest, d.y),
        z: at_world(o.z, t_closest, d.z),
    };
    let dp = p.sub(&sphere.center);
    if dp.near_zero() {
        return Color::black();
    }
    proof {
        lemma_nonzero_dot(dp);
    }
    let n = dp.normalize();
    let nv = d.neg();
    let intensity = compute_lighting(p, n, nv, sphere.specular, lights, spheres);
    proof {
        lemma_mul_abs_bound(131072, lights@.len() as int, 131072, 16384);
    }
    let local = sphere.color.mul(intensity);
    if recursion_depth == 0 || sphere.reflective <= 0 {
        return local;
    }
    let rv = reflect_ray(nv, n);
    if rv.near_zero() {
        return local;
    }
    proof {
        lemma_nonzero_dot(rv);
    }
    let ru = rv.normalize();
    if ru.near_zero() {
        return local;
    }
    let reflected = trace_ray(p, ru, 66, 0x7fff_ffff_ffff_ffff, recursion_depth - 1, lights,
        spheres);
    let keep = SCALE - sphere.reflective;
    local.mul(keep).add(&reflected.mul(sphere.reflective))
}

} // verus!
