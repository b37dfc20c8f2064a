//! Scenes: camera, sphere list and sampling parameters, plus the
//! classic randomized demonstration world.

use vstd::prelude::*;

verus! {

use crate::camera::Camera;
use crate::camera::cam_wf;
use crate::color::Color;
use crate::fixed::SCALE;
use crate::material::Dielectric;
use crate::material::Lambertian;
use crate::material::Material;
use crate::material::Metal;
use crate::point3d::Point3D;
use crate::rng::gen_range_i64;
use crate::sphere::Sphere;
use crate::sphere::sphere_wf;

pub struct Scene {
    pub aspect_ratio: i64,
    pub width: usize,
    pub height: usize,
    pub samples_per_pixel: usize,
    pub depth_max: isize,
    pub camera: Camera,
    pub objects: Vec<Sphere>,
}

/// Every sphere of the list is well formed.
pub open spec fn world_wf(world: Seq<Sphere>) -> bool {
    forall|i: int| 0 <= i < world.len() ==> sphere_wf(#[trigger] world[i])
}

/// A scene the renderer accepts: bounded image dimensions, at least
/// one sample per pixel, a well-formed camera and world.
pub open spec fn scene_wf(s: Scene) -> bool {
    &&& 2 <= s.width <= 1048576
    &&& 3 <= s.height <= 1048576
    &&& 1 <= s.samples_per_pixel <= 0x7fff_ffff
    &&& s.width * s.height * 3 <= usize::MAX
    &&& cam_wf(s.camera)
    &&& world_wf(s.objects@)
}

impl Scene {
    /// The covers-of-the-book scene: a large ground sphere, three
    /// feature spheres and a grid of small random ones, watched by a
    /// distant lens camera at 1200 by 800 pixels.
    pub fn new(rng: &mut rand::rngs::StdRng) -> (r: Scene)
        ensures
            scene_wf(r),
            r.width == 1200,
            r.height == 800,
            r.samples_per_pixel == 500,
            r.depth_max == 50,
    {
        let look_from = Point3D { x: 13 * SCALE, y: 2 * SCALE, z: 3 * SCALE };
        let look_at = Point3D { x: 0, y: 0, z: 0 };
        let vup = Point3D { x: 0, y: SCALE, z: 0 };
        // tan(10 degrees) in fixed point; aspect 3:2; aperture 0.1;
        // focus distance 10.
        let camera = Camera::new(look_from, look_at, vup, 11556, 98304, 6554, 655360);
        Scene {
            aspect_ratio: 98304,
            width: 1200,
            height: 800,
            samples_per_pixel: 500,
            depth_max: 50,
            camera,
            objects: random_world(rng),
        }
    }
}

/// The randomized world: the ground, a glass sphere, a diffuse one and
/// a mirror, then a grid of small spheres with random positions and
/// materials, skipping positions too close to the mirror's plinth.
pub fn random_world(rng: &mut rand::rngs::StdRng) -> (r: Vec<Sphere>)
    ensures
        world_wf(r@),
        r@.len() >= 4,
        r@[0] == (Sphere {
            center: Point3D { x: 0i64, y: -65536000i64, z: -65536i64 },
            radius: 65536000i64,
            material: Material::Lambertian(Lambertian { albedo: Color(32768i64, 32768i64, 32768i64) }),
        }),
        r@[1] == (Sphere {
            center: Point3D { x: 0i64, y: 65536i64, z: 0i64 },
            radius: 65536i64,
            material: Material::Dielectric(Dielectric { refraction_index: 98304i64 }),
        }),
        r@[2] == (Sphere {
            center: Point3D { x: -262144i64, y: 65536i64, z: 0i64 },
            radius: 65536i64,
            material: Material::Lambertian(Lambertian { albedo: Color(26214i64, 13107i64, 6554i64) }),
        }),
        r@[3] == (Sphere {
            center: Point3D { x: 262144i64, y: 65536i64, z: 0i64 },
            radius: 65536i64,
            material: Material::Metal(Metal { albedo: Color(45875i64, 39322i64, 32768i64), fuzz: 0i64 }),
        }),
{
    let mut world: Vec<Sphere> = Vec::new();
    let grey = Color(32768, 32768, 32768);
    world.push(
        Sphere::new(
            Point3D { x: 0, y: -65536000, z: -65536 },
            65536000,
            Material::Lambertian(Lambertian::new(grey)),
        ),
    );
    world.push(
        Sphere::new(
            Point3D { x: 0, y: SCALE, z: 0 },
            SCALE,
            Material::Dielectric(Dielectric::new(98304)),
        ),
    );
    world.push(
        Sphere::new(
            Point3D { x: -4 * SCALE, y: SCALE, z: 0 },
            SCALE,
            Material::Lambertian(Lambertian::new(Color(26214, 13107, 6554))),
        ),
    );
    world.push(
        Sphere::new(
            Point3D { x: 4 * SCALE, y: SCALE, z: 0 },
            SCALE,
            Material::Metal(Metal::new(Color(45875, 39322, 32768), 0)),
        ),
    );
    let ghost fixed4 = world@;
    for ai in 0..22u32
        invariant
            world_wf(world@),
            world@.len() >= 4,
            fixed4.len() == 4,
            world@.subrange(0, 4) =~= fixed4,
    {
        let a: i64 = ai as i64 - 11;
        for bi in 0..22u32
            invariant
                world_wf(world@),
                world@.len() >= 4,
                -11 <= a <= 10,
                fixed4.len() == 4,
                world@.subrange(0, 4) =~= fixed4,
        {
            let b: i64 = bi as i64 - 11;
            let choose_material = gen_range_i64(rng, 0, SCALE);
            let jx = gen_range_i64(rng, 0, SCALE);
            let jz = gen_range_i64(rng, 0, SCALE);
            proof {
                crate::fixed::lemma_fxmul_abs(58982, jx as int, 58982, SCALE as int, 58982);
                crate::fixed::lemma_fxmul_abs(58982, jz as int, 58982, SCALE as int, 58982);
            }
            let center = Point3D {
                x: a * SCALE + crate::fixed::fx_mul(58982, jx),
                y: 13107,
                z: b * SCALE + crate::fixed::fx_mul(58982, jz),
            };
            // Skip what would overlap the mirror sphere's spot: keep
            // only centers farther than 0.9 from (4, 0.2, 0).
            let off = Point3D { x: center.x - 4 * SCALE, y: 0, z: center.z };
            let dsq = off.dot_wide(&off);
            if dsq > (58982 as i128) * (58982 as i128) {
                let material: Material = if choose_material < 52429 {
                    let c1 = Color::random(rng);
                    let c2 = Color::random(rng);
                    proof {
                        crate::fixed::lemma_fxmul_unit(c1.0 as int, c2.0 as int);
                        crate::fixed::lemma_fxmul_unit(c1.1 as int, c2.1 as int);
                        crate::fixed::lemma_fxmul_unit(c1.2 as int, c2.2 as int);
                    }
                    let albedo = c1.mul(&c2);
                    Material::Lambertian(Lambertian::new(albedo))
                } else if choose_material < 62259 {
                    let albedo = Color::random_range(32768, SCALE, rng);
                    let fuzz = gen_range_i64(rng, 0, 32768);
                    Material::Metal(Metal::new(albedo, fuzz))
                } else {
                    Material::Dielectric(Dielectric::new(98304))
                };
                world.push(Sphere::new(center, 13107, material));
            }
        }
    }
    proof {
        assert(world@[0] == world@.subrange(0, 4)[0]);
        assert(world@[1] == world@.subrange(0, 4)[1]);
        assert(world@[2] == world@.subrange(0, 4)[2]);
        assert(world@[3] == world@.subrange(0, 4)[3]);
    }
    world
}

} // verus!
