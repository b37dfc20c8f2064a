//! The integrator, the pixel pipeline and whole-scene rendering.

use graphics::camera::Camera;
use graphics::canvas::Canvas;
use graphics::color::Color;
use graphics::light::{Light, LightType};
use graphics::material::{Lambertian, Material, Metal};
use graphics::point3d::Point3D;
use graphics::ray::Ray;
use graphics::render::{calc_pos, hit_world, ray_color, render, render_line, set_pixel, sky_color};
use graphics::rng::seed_rng;
use graphics::scene::{random_world, Scene};
use graphics::sphere::Sphere;

fn unit_sphere_world() -> Vec<Sphere> {
    vec![Sphere::new(
        Point3D::new(0, 0, -65536),
        32768,
        Material::Lambertian(Lambertian::new(Color(32768, 32768, 32768))),
    )]
}

#[test]
fn ray_color_depth_zero_is_black() {
    let mut rng = seed_rng(1);
    let world = unit_sphere_world();
    let ray = Ray::new(Point3D::new(0, 0, 0), Point3D::new(0, 0, -65536));
    assert_eq!(ray_color(&ray, &world, 0, &mut rng), Color(0, 0, 0));
    assert_eq!(ray_color(&ray, &world, -3, &mut rng), Color(0, 0, 0));
}

#[test]
fn sky_gradient_exact() {
    // Straight up: the top of the gradient, the sky blue itself.
    let up = sky_color(&Point3D::new(0, 65536, 0));
    assert_eq!(up, Color(32768, 45875, 65536));
    // Horizontal: the midpoint between white and sky blue.
    let level = sky_color(&Point3D::new(0, 0, 65536));
    assert_eq!(level, Color(49152, 55705, 65536));
}

#[test]
fn center_pixel_single_bounce() {
    // A unit-diameter diffuse sphere dead ahead: the center ray hits,
    // and one bounce into the sky leaves a dimmed, non-black color.
    let mut rng = seed_rng(11);
    let world = unit_sphere_world();
    let ray = Ray::new(Point3D::new(0, 0, 0), Point3D::new(0, 0, -65536));
    let rec = hit_world(&world, &ray, 66, i64::MAX).expect("center ray hits");
    assert_eq!(rec.t, 32768);
    let c = ray_color(&ray, &world, 2, &mut rng);
    assert!(c.0 > 0 && c.1 > 0 && c.2 > 0, "not black");
    assert!(c.0 < 32768 && c.1 < 45875, "darker than the albedo lit by sky");
    assert!(c.2 <= 32768);
}

#[test]
fn ray_above_sphere_sees_sky() {
    let mut rng = seed_rng(5);
    let world = unit_sphere_world();
    let ray = Ray::new(Point3D::new(0, 0, 0), Point3D::new(0, 65536, 0));
    assert!(hit_world(&world, &ray, 66, i64::MAX).is_none());
    let c = ray_color(&ray, &world, 5, &mut rng);
    assert_eq!(c, Color(32768, 45875, 65536));
}

#[test]
fn mirror_sphere_reflects_sky() {
    // A perfect mirror (fuzz 0) straight ahead: the traced color must
    // equal the closed-form reflection, the albedo times the sky color
    // of the mirrored direction.
    let mut rng = seed_rng(3);
    let albedo = Color(52429, 39322, 13107);
    let world = vec![Sphere::new(
        Point3D::new(0, 0, -131072),
        65536,
        Material::Metal(Metal::new(albedo, 0)),
    )];
    let ray = Ray::new(Point3D::new(0, 0, 0), Point3D::new(0, 0, -65536));
    let traced = ray_color(&ray, &world, 3, &mut rng);
    let unit_in = ray.direction.normalize();
    let normal = Point3D::new(0, 0, 65536); // dead-center hit
    let mirrored = graphics::material::reflect(&unit_in, &normal);
    let expected = albedo.mul(&sky_color(&mirrored));
    assert_eq!(traced, expected);
}

#[test]
fn hit_world_picks_closest() {
    let grey = Material::Lambertian(Lambertian::new(Color(32768, 32768, 32768)));
    let near = Sphere::new(Point3D::new(0, 0, -65536), 16384, grey);
    let far = Sphere::new(Point3D::new(0, 0, -196608), 16384, grey);
    let ray = Ray::new(Point3D::new(0, 0, 0), Point3D::new(0, 0, -65536));
    // Regardless of list order, the nearer sphere wins.
    let rec = hit_world(&vec![near, far], &ray, 66, i64::MAX).expect("hit");
    assert_eq!(rec.t, 49152); // t = 0.75
    let rec2 = hit_world(&vec![far, near], &ray, 66, i64::MAX).expect("hit");
    assert_eq!(rec2.t, 49152);
    let empty: Vec<Sphere> = vec![];
    assert!(hit_world(&empty, &ray, 66, i64::MAX).is_none());
}

#[test]
fn to_bytes_gamma_round_trip() {
    // A full blue channel over one sample: sqrt(1.0) scaled to 255.
    assert_eq!(Color(0, 0, 16711680).to_bytes(1), [0, 0, 255]);
    assert_eq!(Color(0, 0, 65536).to_bytes(1), [0, 0, 255]);
    // A quarter intensity gamma-corrects to one half: 127 of 255.
    assert_eq!(Color(16384, 65536, 0).to_bytes(1), [127, 255, 0]);
    // Averaging over four samples divides first.
    assert_eq!(Color(65536, 65536, 65536).to_bytes(4), [127, 127, 127]);
}

#[test]
fn color_arithmetic() {
    let mut acc = Color::black();
    acc.add_assign(&Color(100, 200, 300));
    acc.add_assign(&Color(1, 2, 3));
    assert_eq!(acc, Color(101, 202, 303));
    let sum = Color(65536, 0, 32768).add(&Color(0, 65536, 32768));
    assert_eq!(sum, Color(65536, 65536, 65536));
    let product = Color(32768, 65536, 16384).mul(&Color(32768, 32768, 65536));
    assert_eq!(product, Color(16384, 32768, 16384));
    let scaled = Color(32768, 65536, 0).scale(32768);
    assert_eq!(scaled, Color(16384, 32768, 0));
    let d: Color = Default::default();
    assert_eq!(d, Color::white());
}

#[test]
fn attenuation_chain_never_amplifies() {
    // Multiplying displayable attenuations channel by channel only
    // ever dims: the running product equals each step's fixed-point
    // product and stays within one unit per channel.
    let steps = [
        Color(32768, 45875, 65536),
        Color(65536, 13107, 52429),
        Color(6554, 65536, 39322),
    ];
    let mut acc = Color::white();
    for s in steps {
        let next = acc.mul(&s);
        assert_eq!(next.0, acc.0 * s.0 >> 16);
        assert_eq!(next.1, acc.1 * s.1 >> 16);
        assert_eq!(next.2, acc.2 * s.2 >> 16);
        acc = next;
    }
    assert!(acc.0 <= 65536 && acc.1 <= 65536 && acc.2 <= 65536);
    assert!(acc.0 >= 0 && acc.1 >= 0 && acc.2 >= 0);
}

#[test]
fn pixel_positions_and_writes() {
    assert_eq!(calc_pos(2, 3, 10), 96);
    assert_eq!(calc_pos(0, 0, 10), 0);
    let mut pixels = vec![0u8; 4 * 4 * 3];
    set_pixel(&mut pixels, 0, 0, Color(65536, 0, 16384), 4, 4);
    // Center of a 4x4 canvas: column 2 of row 2, byte offset 30.
    assert_eq!(pixels[30], 255);
    assert_eq!(pixels[31], 0);
    assert_eq!(pixels[32], 127);
    assert_eq!(pixels.iter().map(|&b| b as u64).sum::<u64>(), 255 + 127);
    // Out-of-range coordinates change nothing.
    let before = pixels.clone();
    set_pixel(&mut pixels, 100, -100, Color(65536, 65536, 65536), 4, 4);
    assert_eq!(pixels, before);
}

#[test]
fn canvas_round_trip() {
    let mut canvas = Canvas::new(4, 4);
    let v = canvas.to_viewport(2, 1);
    assert_eq!((v.x, v.y, v.z), (32768, 16384, 65536));
    canvas.put_pixel(0, 0, Color(65536, 0, 32768));
    let bytes = canvas.to_pixels();
    assert_eq!(bytes.len(), 48);
    // put_pixel lands at column 2 of row 1.
    let pos = 3 * (1 * 4 + 2);
    assert_eq!((bytes[pos], bytes[pos + 1], bytes[pos + 2]), (255, 0, 127));
    // Everything else stayed white.
    assert_eq!(bytes[0], 255);
    assert_eq!(bytes[1], 255);
}

#[test]
fn render_buffer_dimensions() {
    let mut rng = seed_rng(9);
    let scene = Scene {
        aspect_ratio: 98304,
        width: 4,
        height: 3,
        samples_per_pixel: 1,
        depth_max: 2,
        camera: Camera::standard(),
        objects: unit_sphere_world(),
    };
    let row = render_line(&scene, 0, &mut rng);
    assert_eq!(row.len(), 12);
    let image = render(&scene, &mut rng);
    assert_eq!(image.len(), 36);
}

#[test]
fn random_world_and_scene() {
    let mut rng = seed_rng(123);
    let world = random_world(&mut rng);
    assert!(world.len() >= 4);
    let scene = Scene::new(&mut rng);
    assert_eq!((scene.width, scene.height), (1200, 800));
    assert_eq!(scene.samples_per_pixel, 500);
    assert_eq!(scene.depth_max, 50);
}

#[test]
fn light_kinds() {
    let ambient = Light { typ: LightType::Ambient, intensity: 13107, point: None };
    let point = Light {
        typ: LightType::Point,
        intensity: 39322,
        point: Some(Point3D::new(131072, 65536, 0)),
    };
    assert_eq!(ambient.typ, LightType::Ambient);
    assert_ne!(point.typ, LightType::Directional);
    assert!(point.point.is_some());
}
