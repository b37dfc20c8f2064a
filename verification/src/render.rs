//! The renderer: closest-hit search over the world, the bounded
//! light-transport loop, per-pixel sampling, and the pixel buffer.

use vstd::prelude::*;

verus! {

use crate::color::Color;
use crate::color::byte_of;
use crate::color::color_wf;
use crate::fixed::SCALE;
use crate::fixed::tdiv;
use crate::fixed::fxmul;
use crate::fixed::lemma_fxmul_unit;
use crate::fixed::lemma_tdiv_bounds;
use crate::hittable::HitRecord;
use crate::hittable::rec_wf;
use crate::material::Scatterable;
use crate::point3d::Point3D;
use crate::point3d::in_range;
use crate::point3d::is_zero;
use crate::point3d::unit3;
use crate::point3d::COORD_LIMIT;
use crate::ray::Ray;
use crate::scene::Scene;
use crate::scene::scene_wf;
use crate::scene::world_wf;
use crate::sphere::Sphere;
use crate::sphere::hit_t;
use crate::sphere::rec_matches;

/// The smallest ray parameter a secondary ray accepts; starting a
/// little above zero avoids immediate self-intersection.
pub const EPSILON: i64 = 66;

/// The state of the closest-hit search after a prefix of the world:
/// the narrowed upper parameter bound, and whether anything was hit.
pub open spec fn closest_t(world: Seq<Sphere>, ray: Ray, t_min: int, t_max: int) -> (int, bool)
    decreases world.len(),
{
    if world.len() == 0 {
        (t_max, false)
    } else {
        let prev = closest_t(world.drop_last(), ray, t_min, t_max);
        match hit_t(world.last(), ray, t_min, prev.0) {
            Some(t) => (t, true),
            None => prev,
        }
    }
}

/// The closest hit of the ray among all spheres of the world, scanning
/// in order and narrowing the parameter window to each hit found.
pub fn hit_world(world: &Vec<Sphere>, ray: &Ray, t_min: i64, t_max: i64) -> (r: Option<HitRecord>)
    requires
        world_wf(world@),
        in_range(ray.origin, COORD_LIMIT as int),
        in_range(ray.direction, COORD_LIMIT as int),
        !is_zero(ray.direction),
    ensures
        match r {
            None => !closest_t(world@, *ray, t_min as int, t_max as int).1,
            Some(rec) => {
                &&& closest_t(world@, *ray, t_min as int, t_max as int) == (rec.t as int, true)
                &&& t_min <= rec.t <= t_max
                &&& rec_wf(rec)
                &&& exists|j: int|
                    0 <= j < world@.len() && rec_matches(#[trigger] world@[j], *ray, rec)
            },
        },
{
    let mut found: Option<HitRecord> = None;
    let mut t_closest: i64 = t_max;
    for i in 0..world.len()
        invariant
            world_wf(world@),
            in_range(ray.origin, COORD_LIMIT as int),
            in_range(ray.direction, COORD_LIMIT as int),
            !is_zero(ray.direction),
            t_closest <= t_max,
            match found {
                None => closest_t(world@.subrange(0, i as int), *ray, t_min as int, t_max as int)
                    == (t_closest as int, false),
                Some(rec) => {
                    &&& closest_t(world@.subrange(0, i as int), *ray, t_min as int, t_max as int)
                        == (rec.t as int, true)
                    &&& rec.t == t_closest
                    &&& t_min <= rec.t <= t_max
                    &&& rec_wf(rec)
                    &&& exists|j: int|
                        0 <= j < i && rec_matches(#[trigger] world@[j], *ray, rec)
                },
            },
    {
        let s = world[i];
        proof {
            assert(world@.subrange(0, i + 1).drop_last() =~= world@.subrange(0, i as int));
            assert(world@.subrange(0, i + 1).last() == world@[i as int]);
        }
        match s.hit(ray, t_min, t_closest) {
            Some(h) => {
                proof {
                    assert(rec_matches(world@[i as int], *ray, h));
                }
                t_closest = h.t;
                found = Some(h);
            },
            None => {},
        }
    }
    proof {
        assert(world@.subrange(0, world@.len() as int) =~= world@);
    }
    found
}

/// The color of the sky in a given view direction: a vertical blend
/// from white at the horizon to light blue at the top.
pub open spec fn sky3(direction: Point3D) -> (int, int, int) {
    let t = tdiv(unit3(direction).1 + SCALE, 2);
    (SCALE - t + fxmul(t, 32768), SCALE - t + fxmul(t, 45875), SCALE as int)
}

/// The sky gradient, exact per `sky3`; always a displayable color.
pub fn sky_color(direction: &Point3D) -> (r: Color)
    requires
        in_range(*direction, COORD_LIMIT as int),
        !is_zero(*direction),
    ensures
        (r.0 as int, r.1 as int, r.2 as int) == sky3(*direction),
        color_wf(r),
{
    proof {
        crate::point3d::lemma_nonzero_dot(*direction);
    }
    let unit = direction.normalize();
    proof {
        lemma_tdiv_bounds(unit.y + SCALE, 2, 0, SCALE as int);
    }
    let t = (unit.y + SCALE) / 2;
    proof {
        lemma_fxmul_unit(t as int, 32768);
        lemma_fxmul_unit(t as int, 45875);
    }
    Color(
        SCALE - t + crate::fixed::fx_mul(t, 32768),
        SCALE - t + crate::fixed::fx_mul(t, 45875),
        SCALE,
    )
}

/// The per-channel fixed-point product of a chain of attenuations,
/// starting from white.
pub open spec fn color_product(cs: Seq<Color>) -> (int, int, int)
    decreases cs.len(),
{
    if cs.len() == 0 {
        (SCALE as int, SCALE as int, SCALE as int)
    } else {
        let p = color_product(cs.drop_last());
        let c = cs.last();
        (fxmul(p.0, c.0 as int), fxmul(p.1, c.1 as int), fxmul(p.2, c.2 as int))
    }
}

/// Energy is never amplified: over any finite chain of scattering
/// events whose attenuations are displayable colors (each channel
/// within `[0, 1]`), the accumulated multiplier — the per-channel
/// product of the steps — stays within `[0, 1]` on every channel.
pub proof fn lemma_attenuation_product(cs: Seq<Color>)
    requires
        forall|i: int| 0 <= i < cs.len() ==> color_wf(#[trigger] cs[i]),
    ensures
        0 <= color_product(cs).0 <= SCALE,
        0 <= color_product(cs).1 <= SCALE,
        0 <= color_product(cs).2 <= SCALE,
    decreases cs.len(),
{
    if cs.len() > 0 {
        assert(forall|i: int|
            0 <= i < cs.drop_last().len() ==> color_wf(#[trigger] cs.drop_last()[i]));
        lemma_attenuation_product(cs.drop_last());
        let p = color_product(cs.drop_last());
        let c = cs.last();
        lemma_fxmul_unit(p.0, c.0 as int);
        lemma_fxmul_unit(p.1, c.1 as int);
        lemma_fxmul_unit(p.2, c.2 as int);
    }
}

/// Resolve one camera ray against the world: follow scattered rays,
/// multiplying attenuations, until the ray misses everything (the sky
/// is returned through the accumulated attenuation), is absorbed
/// (black), or the recursion budget runs out (black).  The result is
/// always a displayable color, and a zero budget gives exactly black.
pub fn ray_color(ray: &Ray, world: &Vec<Sphere>, depth: isize, rng: &mut rand::rngs::StdRng) -> (r:
    Color)
    requires
        world_wf(world@),
        in_range(ray.origin, COORD_LIMIT as int),
        in_range(ray.direction, COORD_LIMIT as int),
    ensures
        color_wf(r),
        depth <= 0 ==> r == Color(0i64, 0i64, 0i64),
        (depth > 0 && !is_zero(ray.direction) && !closest_t(
            world@,
            *ray,
            EPSILON as int,
            0x7fff_ffff_ffff_ffff,
        ).1) ==> (r.0 as int, r.1 as int, r.2 as int) == sky3(ray.direction),
{
    let mut attenuation = Color::white();
    let ghost mut atts: Seq<Color> = Seq::empty();
    let mut cur: Ray = *ray;
    let mut d: isize = depth;
    while d > 0
        invariant
            world_wf(world@),
            color_wf(attenuation),
            in_range(cur.origin, COORD_LIMIT as int),
            in_range(cur.direction, COORD_LIMIT as int),
            d <= depth,
            d == depth ==> cur == *ray && attenuation == Color(
                SCALE as i64,
                SCALE as i64,
                SCALE as i64,
            ),
            d < depth ==> (is_zero(ray.direction) || closest_t(
                world@,
                *ray,
                EPSILON as int,
                0x7fff_ffff_ffff_ffff,
            ).1),
            (attenuation.0 as int, attenuation.1 as int, attenuation.2 as int) == color_product(
                atts,
            ),
            forall|i: int| 0 <= i < atts.len() ==> color_wf(#[trigger] atts[i]),
        decreases d,
    {
        if cur.direction.near_zero() {
            // A degenerate scattered direction carries no light.
            return Color::black();
        }
        match hit_world(world, &cur, EPSILON, 0x7fff_ffff_ffff_ffff) {
            Some(rec) => {
                match rec.material.scatter(&cur, &rec, rng) {
                    Some((scattered, att)) => {
                        proof {
                            lemma_fxmul_unit(attenuation.0 as int, att.0 as int);
                            lemma_fxmul_unit(attenuation.1 as int, att.1 as int);
                            lemma_fxmul_unit(attenuation.2 as int, att.2 as int);
                            assert(atts.push(att).drop_last() =~= atts);
                        }
                        attenuation = attenuation.mul(&att);
                        proof {
                            atts = atts.push(att);
                        }
                        cur = scattered;
                    },
                    None => {
                        return Color::black();
                    },
                }
            },
            None => {
                let sky = sky_color(&cur.direction);
                proof {
                    lemma_fxmul_unit(attenuation.0 as int, sky.0 as int);
                    lemma_fxmul_unit(attenuation.1 as int, sky.1 as int);
                    lemma_fxmul_unit(attenuation.2 as int, sky.2 as int);
                    if d == depth {
                        crate::fixed::lemma_fxmul_one(sky.0 as int);
                        crate::fixed::lemma_fxmul_one(sky.1 as int);
                        crate::fixed::lemma_fxmul_one(sky.2 as int);
                    }
                }
                return attenuation.mul(&sky);
            },
        }
        d = d - 1;
    }
    Color::black()
}

/// Render one image row: for each pixel, average `samples_per_pixel`
/// jittered rays and append the gamma-corrected byte triple.  Row `y`
/// counts from the top of the image.
pub fn render_line(scene: &Scene, y: usize, rng: &mut rand::rngs::StdRng) -> (r: Vec<u8>)
    requires
        scene_wf(*scene),
        y < scene.height,
    ensures
        r@.len() == scene.width * 3,
{
    let mut row: Vec<u8> = Vec::new();
    let width = scene.width;
    let height = scene.height;
    let samples = scene.samples_per_pixel;
    for x in 0..width
        invariant
            scene_wf(*scene),
            width == scene.width,
            height == scene.height,
            samples == scene.samples_per_pixel,
            y < height,
            row@.len() == x * 3,
    {
        let mut color = Color::black();
        for s in 0..samples
            invariant
                scene_wf(*scene),
                width == scene.width,
                height == scene.height,
                samples == scene.samples_per_pixel,
                y < height,
                x < width,
                0 <= color.0 <= s * (SCALE as int),
                0 <= color.1 <= s * (SCALE as int),
                0 <= color.2 <= s * (SCALE as int),
        {
            let jx = crate::rng::gen_range_i64(rng, 0, SCALE);
            let jy = crate::rng::gen_range_i64(rng, 0, SCALE);
            let nu = (x as i64) * SCALE + jx;
            let nv = ((height - y) as i64) * SCALE + jy;
            proof {
                lemma_tdiv_bounds(nu as int, width as int - 1, 0, 131072);
                lemma_tdiv_bounds(nv as int, height as int - 1, 0, 131072);
            }
            let u = nu / (width as i64 - 1);
            let v = nv / (height as i64 - 1);
            let ray = scene.camera.get_ray(u, v, rng);
            let sample = ray_color(&ray, &scene.objects, scene.depth_max, rng);
            proof {
                assert((s + 1) * (SCALE as int) == s * (SCALE as int) + SCALE) by (nonlinear_arith);
            }
            color.add_assign(&sample);
        }
        let bytes = color.to_bytes(samples);
        row.push(bytes[0]);
        row.push(bytes[1]);
        row.push(bytes[2]);
    }
    row
}

/// Render the whole image sequentially, top row first, into a flat
/// row-major RGB byte buffer of length `width * height * 3`.
pub fn render(scene: &Scene, rng: &mut rand::rngs::StdRng) -> (r: Vec<u8>)
    requires
        scene_wf(*scene),
    ensures
        r@.len() == scene.width * scene.height * 3,
{
    let mut pixels: Vec<u8> = Vec::new();
    let height = scene.height;
    proof {
        assert(0 * (scene.width as int * 3) == 0) by (nonlinear_arith);
    }
    for y in 0..height
        invariant
            scene_wf(*scene),
            height == scene.height,
            pixels@.len() == y * (scene.width * 3),
    {
        proof {
            vstd::arithmetic::mul::lemma_mul_inequality(y as int + 1, height as int,
                scene.width as int * 3);
            assert((y + 1) * (scene.width as int * 3) == y * (scene.width as int * 3)
                + scene.width as int * 3) by (nonlinear_arith);
            assert(scene.height as int * (scene.width as int * 3) == scene.width as int
                * scene.height as int * 3) by (nonlinear_arith);
        }
        let mut row = render_line(scene, y, rng);
        pixels.append(&mut row);
    }
    proof {
        assert(scene.height as int * (scene.width as int * 3) == scene.width as int
            * scene.height as int * 3) by (nonlinear_arith);
    }
    pixels
}

/// The byte offset of the pixel at column `x` of row `y` in a
/// row-major RGB buffer of the given width.
pub fn calc_pos(x: isize, y: isize, width: usize) -> (r: usize)
    requires
        0 <= x,
        0 <= y,
        (y * width + x) * 3 <= usize::MAX,
    ensures
        r == (y * width + x) * 3,
{
    (y as usize * width + x as usize) * 3
}

/// Paint one pixel of a raster whose coordinate system has its origin
/// in the middle: out-of-range coordinates are ignored, in-range ones
/// write exactly three bytes at the pixel's position.
pub fn set_pixel(
    pixels: &mut Vec<u8>,
    x: isize,
    y: isize,
    color: Color,
    width: usize,
    height: usize,
)
    requires
        old(pixels)@.len() == width * height * 3,
        1 <= width <= 0x10000,
        1 <= height <= 0x10000,
        -0x10000 <= x <= 0x10000,
        -0x10000 <= y <= 0x10000,
        color.0 >= 0,
        color.1 >= 0,
        color.2 >= 0,
    ensures
        final(pixels)@.len() == old(pixels)@.len(),
        ({
            let xc = width as int / 2 + x;
            let yc = height as int / 2 - y;
            if 0 <= xc < width && 0 <= yc < height {
                let pos = (yc * width + xc) * 3;
                &&& final(pixels)@[pos] == byte_of(color.0 as int, 1)
                &&& final(pixels)@[pos + 1] == byte_of(color.1 as int, 1)
                &&& final(pixels)@[pos + 2] == byte_of(color.2 as int, 1)
                &&& forall|k: int|
                    0 <= k < old(pixels)@.len() && k != pos && k != pos + 1 && k != pos + 2
                        ==> final(pixels)@[k] == old(pixels)@[k]
            } else {
                final(pixels)@ == old(pixels)@
            }
        }),
{
    let buf_len = pixels.len();
    let xc = (width / 2) as isize + x;
    let yc = (height / 2) as isize - y;
    if xc < 0 || xc >= width as isize || yc < 0 || yc >= height as isize {
        return ;
    }
    proof {
        assert(yc * width <= (height - 1) * width) by (nonlinear_arith)
            requires
                yc <= height - 1,
                width >= 0,
        ;
        assert((height - 1) * (width as int) + width == (height as int) * width)
            by (nonlinear_arith);
        assert((width as int) * height * 3 == ((height as int) * width) * 3) by (nonlinear_arith);
    }
    let pos = calc_pos(xc, yc, width);
    let bytes = color.to_bytes(1);
    pixels.set(pos, bytes[0]);
    pixels.set(pos + 1, bytes[1]);
    pixels.set(pos + 2, bytes[2]);
}

} // verus!
