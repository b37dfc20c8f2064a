//! The direct-illumination shader: byte colors, intersections,
//! lighting terms and the recursive trace.

use graphics::light::{Light, LightType};
use graphics::point3d::Point3D;
use graphics::shading::{
    closest_intersection, compute_lighting, fx_pow, intersect_ray_sphere, reflect_ray, trace_ray,
    Color, Sphere,
};

fn matte(center: Point3D, radius: i64, color: Color) -> Sphere {
    Sphere { center, radius, color, specular: -1, reflective: 0 }
}

#[test]
fn color_add() {
    let c1 = Color(0, 0, 255);
    let c2 = Color(10, 10, 10);
    assert_eq!(c1.add(&c2), Color(10, 10, 255));
}

#[test]
fn color_sub() {
    let c1 = Color(100, 100, 255);
    let c2 = Color(150, 10, 30);
    assert_eq!(c1.sub(&c2), Color(0, 90, 225));
}

#[test]
fn color_mul() {
    // Scaling by 1.3 (85197 in fixed point), rounded and saturated.
    let c = Color(11, 19, 234);
    assert_eq!(c.mul(85197), Color(14, 25, 255));
}

#[test]
fn color_default_is_white() {
    let c: Color = Default::default();
    assert_eq!(c, Color(255, 255, 255));
}

#[test]
fn intersect_roots() {
    // A unit sphere two units ahead: roots at t = 3 and t = 1.
    let s = matte(Point3D::new(0, 0, 131072), 65536, Color(255, 0, 0));
    let (t_plus, t_minus) = intersect_ray_sphere(
        Point3D::new(0, 0, 0),
        Point3D::new(0, 0, 65536),
        &s,
    )
    .expect("two roots");
    assert_eq!((t_plus, t_minus), (196608, 65536));
    // Aimed away: no intersection.
    assert!(intersect_ray_sphere(Point3D::new(0, 0, 0), Point3D::new(0, 65536, 0), &s).is_none());
}

#[test]
fn closest_intersection_scan() {
    let near = matte(Point3D::new(0, 0, 131072), 32768, Color(255, 0, 0));
    let far = matte(Point3D::new(0, 0, 262144), 32768, Color(0, 255, 0));
    let spheres = vec![far, near];
    let (winner, t) = closest_intersection(
        Point3D::new(0, 0, 0),
        Point3D::new(0, 0, 65536),
        66,
        i64::MAX,
        &spheres,
    );
    assert_eq!(t, 98304); // t = 1.5, the near sphere's front
    assert_eq!(winner.expect("hit").color, Color(255, 0, 0));
    let empty: Vec<Sphere> = vec![];
    let (none, t0) = closest_intersection(
        Point3D::new(0, 0, 0),
        Point3D::new(0, 0, 65536),
        66,
        i64::MAX,
        &empty,
    );
    assert!(none.is_none());
    assert_eq!(t0, i64::MAX);
}

#[test]
fn reflect_ray_mirror() {
    // Mirroring the normal about itself returns the normal.
    let n = Point3D::new(0, 0, 65536);
    let r = reflect_ray(Point3D::new(0, 0, 65536), n);
    assert_eq!((r.x, r.y, r.z), (0, 0, 65536));
    // A vector in the surface plane is negated.
    let g = reflect_ray(Point3D::new(65536, 0, 0), n);
    assert_eq!((g.x, g.y, g.z), (-65536, 0, 0));
}

#[test]
fn fixed_powers() {
    assert_eq!(fx_pow(32768, 0), 65536); // x^0 = 1
    assert_eq!(fx_pow(32768, 1), 32768);
    assert_eq!(fx_pow(32768, 2), 16384);
    assert_eq!(fx_pow(65536, 10), 65536);
}

#[test]
fn lighting_terms() {
    let no_spheres: Vec<Sphere> = vec![];
    let point = Point3D::new(0, 0, 0);
    let n = Point3D::new(0, 0, 65536);
    let v = Point3D::new(0, 0, 65536);
    // Ambient light contributes its intensity unconditionally.
    let ambient = vec![Light { typ: LightType::Ambient, intensity: 13107, point: None }];
    assert_eq!(compute_lighting(point, n, v, -1, &ambient, &no_spheres), 13107);
    // A head-on point light: full diffuse plus full specular.
    let overhead = vec![Light {
        typ: LightType::Point,
        intensity: 32768,
        point: Some(Point3D::new(0, 0, 65536)),
    }];
    assert_eq!(compute_lighting(point, n, v, -1, &overhead, &no_spheres), 32768);
    assert_eq!(compute_lighting(point, n, v, 1, &overhead, &no_spheres), 65536);
    // A blocking sphere between the light and the point: shadowed.
    let blocker = vec![matte(Point3D::new(0, 0, 32768), 6554, Color(255, 255, 255))];
    assert_eq!(compute_lighting(point, n, v, -1, &overhead, &blocker), 0);
}

#[test]
fn trace_ray_shading() {
    let lights = vec![Light { typ: LightType::Ambient, intensity: 32768, point: None }];
    let no_spheres: Vec<Sphere> = vec![];
    let o = Point3D::new(0, 0, 0);
    let d = Point3D::new(0, 0, 65536);
    // Nothing to hit: black.
    assert_eq!(trace_ray(o, d, 66, i64::MAX, 3, &lights, &no_spheres), Color(0, 0, 0));
    // A matte red sphere under half ambient light shades to half red.
    let spheres = vec![matte(Point3D::new(0, 0, 196608), 65536, Color(255, 0, 0))];
    assert_eq!(trace_ray(o, d, 66, i64::MAX, 3, &lights, &spheres), Color(128, 0, 0));
}
