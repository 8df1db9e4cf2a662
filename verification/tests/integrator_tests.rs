use pathtracer::aabb::Aabb;
use pathtracer::bvh::BvhTree;
use pathtracer::color::Color;
use pathtracer::intersection::Intersection;
use pathtracer::materials::{Bending, EmissiveDiffuse, Lambertian, Material, Metal, Optics};
use pathtracer::objects::{to_bvh, Object, Sphere};
use pathtracer::ray::Ray;
use pathtracer::scalar::Scalar;
use pathtracer::texture::{SolidColor, Texture, Uv};
use pathtracer::vec3::Vec3;

fn s(x: f32) -> Scalar {
    Scalar::from_bits(x.to_bits())
}

fn f(x: Scalar) -> f32 {
    f32::from_bits(x.to_bits())
}

fn v(x: f32, y: f32, z: f32) -> Vec3 {
    Vec3::new(s(x), s(y), s(z))
}

fn rgb(r: f32, g: f32, b: f32) -> Color {
    Color::new(s(r), s(g), s(b))
}

fn sample(t: &Texture, _uv: Uv, _p: Vec3) -> Color {
    match t {
        Texture::SolidColor(c) => c.get_color_uv(),
        _ => Color::black(),
    }
}

/// Arithmetic that sends every ray straight down, and finds every dot
/// product to be `facing`.
fn straight_down(
    facing: f32,
) -> Optics<
    impl Fn(&Intersection) -> Vec3,
    impl Fn(Vec3, Vec3) -> Scalar,
    impl Fn(&Ray, &Intersection) -> Vec3,
    impl Fn(Vec3, Scalar) -> Vec3,
    impl Fn(Scalar) -> Scalar,
    impl Fn(&Ray, Vec3, Scalar) -> Bending,
    impl Fn() -> Vec3,
> {
    Optics {
        toss: |_i: &Intersection| -> Vec3 { v(0.0, -1.0, 0.0) },
        dot: move |_a: Vec3, _b: Vec3| -> Scalar { s(facing) },
        mirror: |_r: &Ray, _i: &Intersection| -> Vec3 { v(0.0, -1.0, 0.0) },
        blur: |d: Vec3, _fuzz: Scalar| -> Vec3 { d },
        inverse: |x: Scalar| -> Scalar { s(1.0 / f(x)) },
        bend: |_r: &Ray, _n: Vec3, _ratio: Scalar| -> Bending {
            Bending {
                ratio_times_sine: s(0.0),
                reflectance: s(0.0),
                draw: s(0.5),
                mirrored: v(0.0, 1.0, 0.0),
                bent: v(0.0, -1.0, 0.0),
            }
        },
        any: || -> Vec3 { v(0.0, -1.0, 0.0) },
    }
}

/// A first colour plus the product of two others.
fn combine(emitted: Color, attenuation: Color, incoming: Color) -> Color {
    rgb(
        f(emitted.r) + f(attenuation.r) * f(incoming.r),
        f(emitted.g) + f(attenuation.g) * f(incoming.g),
        f(emitted.b) + f(attenuation.b) * f(incoming.b),
    )
}

fn ray_down(from: f32) -> Ray {
    Ray::new(v(0.0, from, 0.0), v(0.0, -1.0, 0.0), s(0.0))
}

fn hit_at(y: f32, mat: &Material) -> Intersection {
    Intersection::new(
        s(1.0),
        v(0.0, y, 0.0),
        v(0.0, 1.0, 0.0),
        v(0.0, 1.0, 0.0),
        mat,
        Uv { u: s(0.0), v: s(0.0) },
    )
}

/// A stack of half-grey sheets at every whole height above zero, over a lamp
/// at height zero.
fn sheets_over_a_lamp(r: &Ray) -> Option<Intersection> {
    let y = f(r.origin.y);
    if y > 1.0 {
        Some(hit_at(y - 1.0, &Lambertian::new(SolidColor::new(rgb(0.5, 0.5, 0.5)))))
    } else if y > 0.0 {
        Some(hit_at(0.0, &EmissiveDiffuse::new(SolidColor::new(rgb(4.0, 2.0, 1.0)))))
    } else {
        None
    }
}

fn nothing(_r: &Ray) -> Option<Intersection> {
    None
}

#[test]
fn depth_zero_is_black_whatever_the_scene() {
    let background = rgb(0.3, 0.6, 0.9);
    let black = rgb(0.0, 0.0, 0.0);
    assert_eq!(ray_down(5.0).color_by(&sheets_over_a_lamp, &sample, &straight_down(1.0), &combine, &background, 0), black);
    assert_eq!(ray_down(1.0).color_by(&sheets_over_a_lamp, &sample, &straight_down(1.0), &combine, &background, 0), black);
    assert_eq!(ray_down(5.0).color_by(&nothing, &sample, &straight_down(1.0), &combine, &background, 0), black);
}

#[test]
fn a_miss_is_the_background() {
    let background = rgb(0.3, 0.6, 0.9);
    assert_eq!(ray_down(5.0).color_by(&nothing, &sample, &straight_down(1.0), &combine, &background, 1), background);
    assert_eq!(ray_down(5.0).color_by(&nothing, &sample, &straight_down(1.0), &combine, &background, 50), background);
}

#[test]
fn a_lamp_gives_its_light_and_ends_the_path() {
    let background = rgb(0.3, 0.6, 0.9);
    assert_eq!(
        ray_down(1.0).color_by(&sheets_over_a_lamp, &sample, &straight_down(1.0), &combine, &background, 1),
        rgb(4.0, 2.0, 1.0)
    );
    assert_eq!(
        ray_down(1.0).color_by(&sheets_over_a_lamp, &sample, &straight_down(1.0), &combine, &background, 9),
        rgb(4.0, 2.0, 1.0)
    );
}

#[test]
fn each_bounce_weakens_the_light() {
    let background = rgb(0.3, 0.6, 0.9);
    // Two sheets, then the lamp: 0.5 * 0.5 * lamp.
    assert_eq!(
        ray_down(3.0).color_by(&sheets_over_a_lamp, &sample, &straight_down(1.0), &combine, &background, 3),
        rgb(1.0, 0.5, 0.25)
    );
    assert_eq!(
        ray_down(3.0).color_by(&sheets_over_a_lamp, &sample, &straight_down(1.0), &combine, &background, 50),
        rgb(1.0, 0.5, 0.25)
    );
}

#[test]
fn a_path_cut_short_brings_no_light() {
    let background = rgb(0.3, 0.6, 0.9);
    // Two sheets use up the two hits: the lamp is never reached.
    assert_eq!(
        ray_down(3.0).color_by(&sheets_over_a_lamp, &sample, &straight_down(1.0), &combine, &background, 2),
        rgb(0.0, 0.0, 0.0)
    );
    assert_eq!(
        ray_down(3.0).color_by(&sheets_over_a_lamp, &sample, &straight_down(1.0), &combine, &background, 1),
        rgb(0.0, 0.0, 0.0)
    );
}

#[test]
fn an_absorbed_ray_brings_what_is_given_off() {
    let background = rgb(0.3, 0.6, 0.9);
    let mirror_from_behind = |_r: &Ray| Some(hit_at(0.0, &Metal::new(SolidColor::new(rgb(0.9, 0.9, 0.9)), s(0.0))));
    assert_eq!(
        ray_down(3.0).color_by(&mirror_from_behind, &sample, &straight_down(-1.0), &combine, &background, 5),
        rgb(0.0, 0.0, 0.0)
    );
}

#[test]
fn a_scattered_ray_that_misses_brings_the_background() {
    let background = rgb(0.2, 0.4, 0.8);
    let one_sheet = |r: &Ray| {
        if f(r.origin.y) > 1.0 {
            Some(hit_at(1.0, &Lambertian::new(SolidColor::new(rgb(0.5, 0.25, 1.0)))))
        } else {
            None
        }
    };
    assert_eq!(
        ray_down(3.0).color_by(&one_sheet, &sample, &straight_down(1.0), &combine, &background, 5),
        rgb(0.1, 0.1, 0.8)
    );
}

/// A scene of sheets and a lamp as a list of primitives: a sphere stands
/// for each of them, with its height as its centre. A ray meets the highest
/// of them that lies below its origin.
fn stack() -> Vec<Object> {
    vec![
        Sphere::new(v(0.0, 0.0, 0.0), s(1.0), EmissiveDiffuse::new(SolidColor::new(rgb(4.0, 2.0, 1.0)))),
        Sphere::new(v(0.0, 2.0, 0.0), s(1.0), Lambertian::new(SolidColor::new(rgb(0.5, 0.5, 0.5)))),
        Sphere::new(v(0.0, 1.0, 0.0), s(1.0), Lambertian::new(SolidColor::new(rgb(0.5, 0.25, 1.0)))),
    ]
}

fn meet(r: &Ray, o: &Object) -> Option<Intersection> {
    match o {
        Object::Sphere(sp) => {
            let height = f(sp.center.y);
            let from = f(r.origin.y);
            if height < from {
                Some(Intersection::new(
                    s(from - height),
                    v(0.25, height, 0.0),
                    v(0.0, 1.0, 0.0),
                    v(-0.25, 1.0, 0.0),
                    &sp.material,
                    Uv { u: s(0.0), v: s(0.0) },
                ))
            } else {
                None
            }
        }
        _ => None,
    }
}

fn spread(center: Scalar, half_width: Scalar) -> (Scalar, Scalar) {
    (s(f(center) - f(half_width)), s(f(center) + f(half_width)))
}

fn any_box(_r: &Ray, _b: Aabb) -> bool {
    true
}

fn no_box(_r: &Ray, _b: Aabb) -> bool {
    false
}

fn tree_of(world: &Vec<Object>) -> BvhTree {
    let boxes: Vec<Aabb> = world.iter().map(|o| o.bounding_box(&spread).unwrap()).collect();
    BvhTree::new(&boxes)
}

#[test]
fn light_from_a_list_of_primitives() {
    let world = stack();
    let background = rgb(0.3, 0.6, 0.9);
    // From above all: the grey sheet, the violet sheet, the lamp.
    assert_eq!(
        ray_down(3.0).color(&world, &meet, &sample, &straight_down(1.0), &combine, &background, 5),
        rgb(0.5 * 0.5 * 4.0, 0.5 * 0.25 * 2.0, 0.5 * 1.0 * 1.0)
    );
    assert_eq!(
        ray_down(1.5).color(&world, &meet, &sample, &straight_down(1.0), &combine, &background, 5),
        rgb(2.0, 0.5, 1.0)
    );
    assert_eq!(
        ray_down(0.5).color(&world, &meet, &sample, &straight_down(1.0), &combine, &background, 5),
        rgb(4.0, 2.0, 1.0)
    );
    assert_eq!(
        ray_down(-1.0).color(&world, &meet, &sample, &straight_down(1.0), &combine, &background, 5),
        background
    );
    assert_eq!(
        ray_down(3.0).color(&world, &meet, &sample, &straight_down(1.0), &combine, &background, 0),
        rgb(0.0, 0.0, 0.0)
    );
    assert_eq!(
        ray_down(3.0).color(&world, &meet, &sample, &straight_down(1.0), &combine, &background, 2),
        rgb(0.0, 0.0, 0.0)
    );
}

#[test]
fn light_from_a_tree_and_from_a_hierarchy_is_the_light_from_the_list() {
    let world = stack();
    let tree = tree_of(&world);
    let hierarchy = to_bvh(stack(), &spread);
    let background = rgb(0.3, 0.6, 0.9);
    let by_place = |r: &Ray, i: usize| meet(r, &world[i]);
    for from in [3.0, 1.5, 0.5, -1.0] {
        for depth in 0..5 {
            let listed = ray_down(from).color(&world, &meet, &sample, &straight_down(1.0), &combine, &background, depth);
            let in_tree = ray_down(from).bvh_color(
                &tree, &any_box, &by_place, &sample, &straight_down(1.0), &combine, &background, depth,
            );
            let in_hierarchy = ray_down(from).bvh2_color(
                &hierarchy, &any_box, &meet, &sample, &straight_down(1.0), &combine, &background, depth,
            );
            assert_eq!(in_tree, listed);
            assert_eq!(in_hierarchy, listed);
        }
    }
}

#[test]
fn a_scene_whose_boxes_are_all_missed_shows_the_background() {
    let world = stack();
    let tree = tree_of(&world);
    let hierarchy = to_bvh(stack(), &spread);
    let background = rgb(0.3, 0.6, 0.9);
    let by_place = |r: &Ray, i: usize| meet(r, &world[i]);
    assert_eq!(
        ray_down(3.0).bvh_color(&tree, &no_box, &by_place, &sample, &straight_down(1.0), &combine, &background, 5),
        background
    );
    assert_eq!(
        ray_down(3.0).bvh2_color(&hierarchy, &no_box, &meet, &sample, &straight_down(1.0), &combine, &background, 5),
        background
    );
    assert_eq!(
        ray_down(3.0).bvh2_color(&hierarchy, &no_box, &meet, &sample, &straight_down(1.0), &combine, &background, 0),
        rgb(0.0, 0.0, 0.0)
    );
}

#[test]
fn buffers_of_a_hit_and_of_a_miss() {
    let world = stack();
    let tree = tree_of(&world);
    let hierarchy = to_bvh(stack(), &spread);
    let by_place = |r: &Ray, i: usize| meet(r, &world[i]);
    let background = rgb(0.3, 1.6, -0.9);
    // A texture whose red grows with the x of the place at which it is
    // looked up: the hit point has x = 0.25.
    let probe = |t: &Texture, _uv: Uv, p: Vec3| match t {
        Texture::SolidColor(c) => rgb(f(c.get_color_uv().r) + f(p.x), f(c.get_color_uv().g) * 4.0, f(c.get_color_uv().b)),
        _ => Color::black(),
    };
    let (albedo, normal) = ray_down(3.0).buffer(&world, &meet, &probe, &background);
    assert_eq!(albedo, vec![s(0.75), s(1.0), s(0.5)]);
    assert_eq!(normal, vec![s(0.0), s(1.0), s(0.0)]);
    let (albedo, normal) = ray_down(3.0).bvh_buffer(&tree, &any_box, &by_place, &probe, &background);
    assert_eq!(albedo, vec![s(0.75), s(1.0), s(0.5)]);
    assert_eq!(normal, vec![s(0.0), s(1.0), s(0.0)]);
    let (albedo, normal) = ray_down(3.0).bvh2_buffer(&hierarchy, &any_box, &meet, &probe, &background);
    assert_eq!(albedo, vec![s(0.75), s(1.0), s(0.5)]);
    assert_eq!(normal, vec![s(0.0), s(1.0), s(0.0)]);
    let missed = (vec![s(0.3), s(1.0), s(0.0)], vec![s(0.0), s(0.0), s(0.0)]);
    assert_eq!(ray_down(-1.0).buffer(&world, &meet, &probe, &background), missed);
    assert_eq!(ray_down(-1.0).bvh_buffer(&tree, &any_box, &by_place, &probe, &background), missed);
    assert_eq!(ray_down(3.0).bvh_buffer(&tree, &no_box, &by_place, &probe, &background), missed);
    assert_eq!(ray_down(-1.0).bvh2_buffer(&hierarchy, &any_box, &meet, &probe, &background), missed);
    assert_eq!(ray_down(3.0).bvh2_buffer(&hierarchy, &no_box, &meet, &probe, &background), missed);
}
