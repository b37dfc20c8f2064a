//! Scattering behaviours: reflection, refraction, Schlick reflectance,
//! and the three materials' scatter decisions.

use graphics::color::Color;
use graphics::hittable::HitRecord;
use graphics::material::{
    dielectric_scatter, lambertian_scatter, metal_scatter, reflect, reflectance, refract,
    Dielectric, Lambertian, Material, Metal, Scatterable,
};
use graphics::point3d::Point3D;
use graphics::ray::Ray;
use graphics::rng::seed_rng;

fn front_hit(material: Material) -> HitRecord {
    HitRecord {
        point: Point3D::new(0, 0, -32768),
        normal: Point3D::new(0, 0, 65536),
        t: 32768,
        front_face: true,
        material,
    }
}

#[test]
fn reflect_about_normal() {
    let v = Point3D::new(0, 0, -65536);
    let n = Point3D::new(0, 0, 65536);
    let r = reflect(&v, &n);
    assert_eq!((r.x, r.y, r.z), (0, 0, 65536));
    // A grazing direction along x is unchanged.
    let g = reflect(&Point3D::new(65536, 0, 0), &n);
    assert_eq!((g.x, g.y, g.z), (65536, 0, 0));
}

#[test]
fn refract_straight_through() {
    // Head-on incidence passes straight through for any ratio.
    let uv = Point3D::new(0, 0, -65536);
    let n = Point3D::new(0, 0, 65536);
    let r = refract(&uv, &n, 43690);
    assert_eq!((r.x, r.y, r.z), (0, 0, -65536));
}

#[test]
fn schlick_reflectance_values() {
    // Head-on against glass (index 1.5): r0 = ((1-1.5)/(1+1.5))^2.
    assert_eq!(reflectance(65536, 98304), 2621); // 0.04
    // Grazing incidence: full reflection.
    assert_eq!(reflectance(0, 98304), 65536);
    // Always within [0, 1].
    for cos in [0i64, 1000, 30000, 65535, 65536] {
        for idx in [1i64, 30000, 65536, 98304, 524288] {
            let r = reflectance(cos, idx);
            assert!((0..=65536).contains(&r));
        }
    }
}

#[test]
fn lambertian_scatter_directions() {
    let albedo = Color(32768, 16384, 8192);
    let hit = front_hit(Material::Lambertian(Lambertian::new(albedo)));
    let (ray, att) = lambertian_scatter(albedo, &hit, Point3D::new(65536, 0, 0));
    assert_eq!(att, albedo);
    assert_eq!(ray.origin, hit.point);
    assert_eq!((ray.direction.x, ray.direction.y, ray.direction.z), (65536, 0, 65536));
    // A cancelling offset degenerates to the bare normal.
    let (ray2, _) = lambertian_scatter(albedo, &hit, Point3D::new(0, 0, -65536));
    assert_eq!((ray2.direction.x, ray2.direction.y, ray2.direction.z), (0, 0, 65536));
}

#[test]
fn metal_scatter_decision() {
    let albedo = Color(52429, 39322, 13107);
    let hit = front_hit(Material::Metal(Metal::new(albedo, 0)));
    let ray_in = Ray::new(Point3D::new(0, 0, 0), Point3D::new(0, 0, -65536));
    // A full-strength fuzz offset can cancel the reflection: absorbed.
    let absorbed = metal_scatter(albedo, 65536, &ray_in, &hit, Point3D::new(0, 0, -65536));
    assert!(absorbed.is_none());
    // Without fuzz the mirror direction survives.
    let (ray, att) = metal_scatter(albedo, 0, &ray_in, &hit, Point3D::new(0, 0, -65536))
        .expect("mirror scatter");
    assert_eq!(att, albedo);
    assert_eq!(ray.origin, hit.point);
    assert_eq!((ray.direction.x, ray.direction.y, ray.direction.z), (0, 0, 65536));
}

#[test]
fn metal_new_clamps_fuzz() {
    let c = Color(65536, 65536, 65536);
    assert_eq!(Metal::new(c, 100_000).fuzz, 65536);
    assert_eq!(Metal::new(c, -5).fuzz, 0);
    assert_eq!(Metal::new(c, 12345).fuzz, 12345);
}

#[test]
fn dielectric_scatter_decision() {
    let hit = front_hit(Material::Dielectric(Dielectric::new(98304)));
    let ray_in = Ray::new(Point3D::new(0, 0, 0), Point3D::new(0, 0, -65536));
    // Head-on reflectance is about 0.04; a high coin refracts.
    let (ray, att) = dielectric_scatter(98304, &ray_in, &hit, 60000);
    assert_eq!(att, Color(65536, 65536, 65536)); // no absorption
    assert_eq!((ray.direction.x, ray.direction.y, ray.direction.z), (0, 0, -65536));
    // A low coin reflects instead.
    let (ray2, _) = dielectric_scatter(98304, &ray_in, &hit, 1000);
    assert_eq!((ray2.direction.x, ray2.direction.y, ray2.direction.z), (0, 0, 65536));
}

#[test]
fn material_dispatch() {
    let mut rng = seed_rng(7);
    let ray_in = Ray::new(Point3D::new(0, 0, 0), Point3D::new(0, 0, -65536));
    let albedo = Color(32768, 32768, 32768);
    let lam = Material::Lambertian(Lambertian::new(albedo));
    let hit = front_hit(lam);
    let (_, att) = lam.scatter(&ray_in, &hit, &mut rng).expect("diffuse always scatters");
    assert_eq!(att, albedo);
    let glass = Material::Dielectric(Dielectric::new(98304));
    assert!(glass.scatter(&ray_in, &front_hit(glass), &mut rng).is_some());
    let light = Material::Light;
    assert!(light.scatter(&ray_in, &front_hit(light), &mut rng).is_none());
}
