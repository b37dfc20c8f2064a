//! Fixed-point scalars, vectors, rays, spheres and the camera.

use graphics::camera::Camera;
use graphics::camera::random_in_unit_disk;
use graphics::color::Color;
use graphics::fixed::{fx_div, fx_mul, isqrt_i128, isqrt_u128, SCALE};
use graphics::hittable::Hittable;
use graphics::material::{Lambertian, Material};
use graphics::point3d::{CrossProduct, Dot, DotProduct, Length, Normalize, Point3D};
use graphics::ray::Ray;
use graphics::rng::{gen_range_i64, seed_rng};
use graphics::sphere::Sphere;

fn grey() -> Material {
    Material::Lambertian(Lambertian::new(Color(32768, 32768, 32768)))
}

#[test]
fn fixed_scalar_ops() {
    assert_eq!(fx_mul(131072, 196608), 393216); // 2 * 3 = 6
    assert_eq!(fx_mul(-131072, 196608), -393216);
    assert_eq!(fx_div(65536, 196608), 21845); // 1 / 3, truncated
    assert_eq!(isqrt_u128(0), 0);
    assert_eq!(isqrt_u128(3), 1);
    assert_eq!(isqrt_u128(4), 2);
    assert_eq!(isqrt_u128(1_000_000), 1000);
    assert_eq!(isqrt_i128(2), 1);
}

#[test]
fn vector_ops() {
    let a = Point3D::new(65536, 131072, 196608);
    let ones = Point3D::new(65536, 65536, 65536);
    assert_eq!(a.dot_fx(&ones), 393216); // 1 + 2 + 3 = 6
    let x = Point3D::new(SCALE, 0, 0);
    let y = Point3D::new(0, SCALE, 0);
    let c = x.cross_fx(&y);
    assert_eq!((c.x, c.y, c.z), (0, 0, SCALE));
    let v = Point3D::new(196608, 262144, 0); // (3, 4, 0)
    assert_eq!(v.length_fx(), 327680); // length 5
    assert_eq!(v.length_squared_fx(), 1638400); // 25
    let n = v.normalize();
    assert_eq!((n.x, n.y, n.z), (39321, 52428, 0)); // (0.6, 0.8, 0)
    let s = v.sub(&v);
    assert!(s.near_zero());
    assert!(!v.near_zero());
    let ng = v.neg();
    assert_eq!((ng.x, ng.y, ng.z), (-196608, -262144, 0));
    let h = v.scale(32768); // halved
    assert_eq!((h.x, h.y, h.z), (98304, 131072, 0));
}

#[test]
fn vector_traits() {
    let a = Point3D::new(65536, 0, 0);
    let b = Point3D::new(131072, 0, 0);
    assert_eq!(<Point3D as DotProduct>::dot(&a, &b), 131072);
    assert_eq!(<Point3D as Dot>::dot(&a, &b), 131072);
    let c = <Point3D as CrossProduct>::cross(&a, &b);
    assert_eq!((c.x, c.y, c.z), (0, 0, 0));
    assert_eq!(<Point3D as Length>::length(&b), 131072);
    assert_eq!(<Point3D as Length>::length_squared(&b), 262144);
    let n = <Point3D as Normalize>::normalize(&b);
    assert_eq!((n.x, n.y, n.z), (65536, 0, 0));
}

#[test]
fn ray_at_parameter() {
    let r = Ray::new(Point3D::new(65536, 0, 0), Point3D::new(0, 0, -65536));
    let p = r.at(32768);
    assert_eq!((p.x, p.y, p.z), (65536, 0, -32768));
}

#[test]
fn sphere_hit_dead_center() {
    let s = Sphere::new(Point3D::new(0, 0, -65536), 32768, grey());
    let ray = Ray::new(Point3D::new(0, 0, 0), Point3D::new(0, 0, -65536));
    let rec = s.hit(&ray, 0, i64::MAX).expect("front hit");
    assert_eq!(rec.t, 32768); // t = 0.5
    assert_eq!((rec.point.x, rec.point.y, rec.point.z), (0, 0, -32768));
    assert!(rec.front_face);
    assert_eq!((rec.normal.x, rec.normal.y, rec.normal.z), (0, 0, 65536));
}

#[test]
fn sphere_hit_window() {
    let s = Sphere::new(Point3D::new(0, 0, -65536), 32768, grey());
    let ray = Ray::new(Point3D::new(0, 0, 0), Point3D::new(0, 0, -65536));
    // Window that excludes both roots (0.5 and 1.5).
    assert!(s.hit(&ray, 0, 16384).is_none());
    // Window that admits only the far root.
    let rec = s.hit(&ray, 65536, i64::MAX).expect("far root");
    assert_eq!(rec.t, 98304); // t = 1.5
    assert!(!rec.front_face); // leaving through the back surface
}

#[test]
fn sphere_miss() {
    let s = Sphere::new(Point3D::new(0, 0, -65536), 32768, grey());
    let ray = Ray::new(Point3D::new(0, 0, 0), Point3D::new(0, 65536, 0));
    assert!(s.hit(&ray, 0, i64::MAX).is_none());
}

#[test]
fn sphere_hit_from_inside() {
    let s = Sphere::new(Point3D::new(0, 0, 0), 131072, grey());
    let ray = Ray::new(Point3D::new(0, 0, 0), Point3D::new(0, 0, -65536));
    let rec = s.hit(&ray, 0, i64::MAX).expect("inside hit");
    assert_eq!(rec.t, 131072); // t = 2, the sphere's radius
    assert!(!rec.front_face); // struck from inside
    // The outward normal points down; flipped toward the ray origin.
    assert_eq!((rec.normal.x, rec.normal.y, rec.normal.z), (0, 0, 65536));
}

#[test]
fn sphere_negative_radius_faces_inward() {
    // A hollow shell: the negative radius flips the outward normal, so
    // a ray from the inside sees a front face.
    let s = Sphere::new(Point3D::new(0, 0, 0), -131072, grey());
    let ray = Ray::new(Point3D::new(0, 0, 0), Point3D::new(0, 0, -65536));
    let rec = s.hit(&ray, 0, i64::MAX).expect("shell hit");
    assert_eq!(rec.t, 131072);
    assert!(rec.front_face);
    assert_eq!((rec.normal.x, rec.normal.y, rec.normal.z), (0, 0, 65536));
}

#[test]
fn sphere_surface_normal() {
    let s = Sphere::new(Point3D::new(0, 0, 0), 131072, grey());
    let n = s.normal(Point3D::new(131072, 0, 0));
    assert_eq!((n.x, n.y, n.z), (65536, 0, 0));
}

#[test]
fn random_vectors_bounded() {
    let mut rng = seed_rng(42);
    for _ in 0..50 {
        let p = Point3D::random_unit(&mut rng);
        assert!(p.x.abs() <= SCALE && p.y.abs() <= SCALE && p.z.abs() <= SCALE);
        assert!(p.dot_wide(&p) < (SCALE as i128) * (SCALE as i128));
        let (dx, dy) = random_in_unit_disk(&mut rng);
        assert!((dx as i128) * (dx as i128) + (dy as i128) * (dy as i128)
            < (SCALE as i128) * (SCALE as i128));
        let v = gen_range_i64(&mut rng, 0, 10);
        assert!((0..10).contains(&v));
    }
}

#[test]
fn camera_standard_center_ray() {
    let cam = Camera::standard();
    assert_eq!(cam.lens_radius, 0);
    assert_eq!(
        (cam.horizontal.x, cam.vertical.y, cam.lower_left_corner.z),
        (233016, 131072, -65536)
    );
    let cam2: Camera = Default::default();
    assert_eq!(cam2.origin, cam.origin);
}

#[test]
fn camera_basis_and_ray() {
    // 90 degree field of view, square aspect, pinhole, focus 1.
    let cam = Camera::new(
        Point3D::new(0, 0, 0),
        Point3D::new(0, 0, -65536),
        Point3D::new(0, 65536, 0),
        65536,
        65536,
        0,
        65536,
    );
    assert_eq!((cam.w.x, cam.w.y, cam.w.z), (0, 0, 65536));
    assert_eq!((cam.u.x, cam.u.y, cam.u.z), (65536, 0, 0));
    assert_eq!((cam.v.x, cam.v.y, cam.v.z), (0, 65536, 0));
    assert_eq!((cam.horizontal.x, cam.vertical.y), (131072, 131072));
    assert_eq!(
        (cam.lower_left_corner.x, cam.lower_left_corner.y, cam.lower_left_corner.z),
        (-65536, -65536, -65536)
    );
    // The center of the image looks straight down the negative z axis.
    let r = cam.ray_through(32768, 32768, 0, 0);
    assert_eq!((r.origin.x, r.origin.y, r.origin.z), (0, 0, 0));
    assert_eq!((r.direction.x, r.direction.y, r.direction.z), (0, 0, -65536));
}
