use pathtracer::color::Color;
use pathtracer::intersection::Intersection;
use pathtracer::materials::{
    is_near_zero, Bending, Dielectric, EmissiveDiffuse, Glossy, Isotropic, Lambertian, Material,
    Metal, Optics,
};
use pathtracer::ray::Ray;
use pathtracer::scalar::Scalar;
use pathtracer::texture::{CheckerBoard, SolidColor, Texture, Uv};
use pathtracer::vec3::Vec3;

fn s(x: f32) -> Scalar {
    Scalar::from_bits(x.to_bits())
}

fn f(x: Scalar) -> f32 {
    f32::from_bits(x.to_bits())
}

fn v(x: f32, y: f32, z: f32) -> Vec3 {
    Vec3::new(s(x), s(y), s(z))
}

fn rgb(r: f32, g: f32, b: f32) -> Color {
    Color::new(s(r), s(g), s(b))
}

fn orange() -> Texture {
    SolidColor::new(rgb(1.0, 0.5, 0.0))
}

/// Looks a texture up: a solid colour as it is, a checkerboard by the sign
/// of the product of the sines.
fn sample(t: &Texture, _uv: Uv, p: Vec3) -> Color {
    match t {
        Texture::SolidColor(c) => c.get_color_uv(),
        Texture::CheckerBoard(c) => {
            let k = f(c.scale);
            c.cell_color(s((k * f(p.x)).sin() * (k * f(p.y)).sin() * (k * f(p.z)).sin()))
        }
        Texture::Image(_) => Color::black(),
    }
}

fn hit(mat: &Material) -> Intersection {
    Intersection::new(
        s(3.0),
        v(1.0, 2.0, 3.0),
        v(0.0, 1.0, 0.0),
        v(0.0, 1.0, 0.0),
        mat,
        Uv { u: s(0.25), v: s(0.75) },
    )
}

fn incoming() -> Ray {
    Ray::new(v(1.0, 5.0, 3.0), v(0.0, -1.0, 0.0), s(0.5))
}

#[test]
fn lambertian_attenuation_is_the_texture_colour() {
    let m = Lambertian::new(orange());
    let i = hit(&m);
    let (attenuation, onward) =
        m.scatter(&incoming(), &i, &sample, &optics_with([0.0, 0.0, 1.0], 0.5)).unwrap();
    assert_eq!(attenuation, rgb(1.0, 0.5, 0.0));
    // The direction is the normal plus the random unit vector.
    assert_eq!(onward, Ray::new(v(1.0, 2.0, 3.0), v(0.0, 1.0, 1.0), s(0.5)));
    // Whatever the draw, a matte surface sends the ray on.
    let (attenuation, onward) =
        m.scatter(&incoming(), &i, &sample, &optics_with([0.6, 0.0, -0.8], 0.5)).unwrap();
    assert_eq!(attenuation, rgb(1.0, 0.5, 0.0));
    assert_eq!(onward.direction, v(0.6, 1.0, -0.8));
    // A random unit vector that cancels the normal: the ray goes along the
    // normal, whatever the hit point.
    let (_, onward) =
        m.scatter(&incoming(), &i, &sample, &optics_with([0.0, -1.0, 0.0], 0.5)).unwrap();
    assert_eq!(onward, Ray::new(v(1.0, 2.0, 3.0), v(0.0, 1.0, 0.0), s(0.5)));
}

#[test]
fn lambertian_attenuation_never_exceeds_the_texture() {
    let textures = [
        orange(),
        SolidColor::new(rgb(0.0, 0.0, 0.0)),
        SolidColor::new(rgb(4.8, 4.8, 4.0)),
        CheckerBoard::new(rgb(1.0, 0.1, 0.1), rgb(0.5, 0.1, 0.1), s(5.0)),
    ];
    for t in textures.iter() {
        let m = Lambertian::new(*t);
        let i = hit(&m);
        let (attenuation, _) =
            m.scatter(&incoming(), &i, &sample, &optics_with([0.0, 0.0, 1.0], 0.5)).unwrap();
        let texture = sample(t, i.uv, i.point);
        assert!(f(attenuation.r) <= f(texture.r));
        assert!(f(attenuation.g) <= f(texture.g));
        assert!(f(attenuation.b) <= f(texture.b));
    }
}

#[test]
fn lambertian_direction_falls_back_to_the_normal() {
    let normal = v(0.0, 1.0, 0.0);
    assert_eq!(Lambertian::scatter_direction(v(0.3, 0.2, -0.1), normal), v(0.3, 0.2, -0.1));
    assert_eq!(Lambertian::scatter_direction(v(0.0, 0.0, 0.0), normal), normal);
    assert_eq!(Lambertian::scatter_direction(v(1e-9, -1e-9, 9e-9), normal), normal);
    assert_eq!(Lambertian::scatter_direction(v(1e-9, -1e-9, 1e-8), normal), v(1e-9, -1e-9, 1e-8));
    assert!(is_near_zero(&v(-9e-9, 0.0, -0.0)));
    assert!(!is_near_zero(&v(0.0, 1e-7, 0.0)));
    assert!(!is_near_zero(&v(f32::NAN, 0.0, 0.0)));
}

#[test]
fn metal_absorbs_what_reflects_into_the_surface() {
    let m = Metal::new(orange(), s(0.1));
    let i = hit(&m);
    let (attenuation, onward) =
        m.scatter(&incoming(), &i, &sample, &optics_with([0.0, 0.0, 1.0], 0.5)).unwrap();
    assert_eq!(attenuation, rgb(1.0, 0.5, 0.0));
    assert_eq!(onward, Ray::new(v(1.0, 2.0, 3.0), v(0.0, 1.0, 0.1), s(0.5)));
    // A ray from behind the surface is mirrored into it.
    let from_below = Ray::new(v(1.0, -5.0, 3.0), v(0.0, 1.0, 0.0), s(0.5));
    assert!(m.scatter(&from_below, &i, &sample, &optics_with([0.0, 0.0, 1.0], 0.5)).is_none());
    assert!(Metal::reflects_outward(s(1e-30)));
    assert!(!Metal::reflects_outward(s(0.0)));
    assert!(!Metal::reflects_outward(s(-0.0)));
    assert!(!Metal::reflects_outward(s(-1.0)));
    assert!(!Metal::reflects_outward(s(f32::NAN)));
}

#[test]
fn dielectric_attenuation_is_white() {
    let m = Dielectric::new(s(1.5));
    let i = hit(&m);
    let (attenuation, onward) =
        m.scatter(&incoming(), &i, &sample, &optics_with([0.0, 0.0, 1.0], 0.5)).unwrap();
    assert_eq!(attenuation, rgb(1.0, 1.0, 1.0));
    assert_eq!(onward.origin, v(1.0, 2.0, 3.0));
    assert_eq!(onward.time, s(0.5));
    // Straight in, drawn above the reflectance: straight on.
    assert_eq!(a(onward.direction), [0.0, -1.0, 0.0]);
    // Drawn below the reflectance: straight back.
    let (_, back) =
        m.scatter(&incoming(), &i, &sample, &optics_with([0.0, 0.0, 1.0], 0.01)).unwrap();
    assert_eq!(a(back.direction), [0.0, 1.0, 0.0]);
}

#[test]
fn dielectric_orients_by_the_side_of_the_ray() {
    let glass = Dielectric { ir: s(1.5) };
    let outward = v(0.0, 1.0, 0.0);
    let inverse = s(1.0 / 1.5);
    assert_eq!(glass.orient(s(-0.7), outward, inverse), (inverse, outward));
    assert_eq!(glass.orient(s(0.7), outward, inverse), (s(1.5), v(-0.0, -1.0, -0.0)));
    assert_eq!(glass.orient(s(0.0), outward, inverse), (s(1.5), v(-0.0, -1.0, -0.0)));
    assert!(Ray::front_face(s(-0.001)));
    assert!(!Ray::front_face(s(0.0)));
    assert!(!Ray::front_face(s(2.0)));
}

#[test]
fn dielectric_mirrors_when_it_cannot_refract_or_by_chance() {
    // Total internal reflection.
    assert!(Dielectric::mirrors(s(1.2), s(0.0), s(0.99)));
    // Reflectance above the draw.
    assert!(Dielectric::mirrors(s(0.5), s(0.3), s(0.2)));
    // Neither.
    assert!(!Dielectric::mirrors(s(0.5), s(0.3), s(0.3)));
    assert!(!Dielectric::mirrors(s(1.0), s(0.04), s(0.5)));
}

#[test]
fn emissive_absorbs_and_gives_off_its_texture() {
    let m = EmissiveDiffuse::new(SolidColor::new(rgb(4.8, 4.8, 4.0)));
    let i = hit(&m);
    assert!(m.scatter(&incoming(), &i, &sample, &optics_with([0.0, 0.0, 1.0], 0.5)).is_none());
    assert_eq!(m.emitted(&i, &sample), rgb(4.8, 4.8, 4.0));
    assert_eq!(m.albedo(i.uv, i.point, &sample), rgb(4.8, 4.8, 4.0));
}

#[test]
fn only_a_light_source_gives_off_light() {
    let others = [
        Lambertian::new(orange()),
        Metal::new(orange(), s(0.0)),
        Dielectric::new(s(1.5)),
        Isotropic::new(orange()),
        Glossy::new(orange(), s(0.3)),
    ];
    for m in others.iter() {
        assert_eq!(m.emitted(&hit(m), &sample), rgb(0.0, 0.0, 0.0));
    }
}

#[test]
fn albedo_is_the_texture_but_for_glass() {
    let p = v(0.0, 0.0, 0.0);
    let uv = Uv { u: s(0.0), v: s(0.0) };
    assert_eq!(Lambertian::new(orange()).albedo(uv, p, &sample), rgb(1.0, 0.5, 0.0));
    assert_eq!(Metal::new(orange(), s(0.0)).albedo(uv, p, &sample), rgb(1.0, 0.5, 0.0));
    assert_eq!(Isotropic::new(orange()).albedo(uv, p, &sample), rgb(1.0, 0.5, 0.0));
    assert_eq!(Glossy::new(orange(), s(0.3)).albedo(uv, p, &sample), rgb(1.0, 0.5, 0.0));
    assert_eq!(Dielectric::new(s(1.5)).albedo(uv, p, &sample), rgb(0.0, 0.0, 0.0));
}

#[test]
fn isotropic_scatters_any_way() {
    let m = Isotropic::new(orange());
    let i = hit(&m);
    let (attenuation, onward) =
        m.scatter(&incoming(), &i, &sample, &optics_with([0.0, -1.0, 0.0], 0.5)).unwrap();
    assert_eq!(attenuation, rgb(1.0, 0.5, 0.0));
    assert_eq!(onward, Ray::new(v(1.0, 2.0, 3.0), v(0.0, -1.0, 0.0), s(0.5)));
}

#[test]
fn glossy_sends_the_ray_along_the_normal() {
    let m = Glossy::new(orange(), s(0.3));
    let i = hit(&m);
    let (attenuation, onward) =
        m.scatter(&incoming(), &i, &sample, &optics_with([0.0, -1.0, 0.0], 0.5)).unwrap();
    assert_eq!(attenuation, rgb(1.0, 0.5, 0.0));
    assert_eq!(onward, Ray::new(v(1.0, 2.0, 3.0), v(0.0, 1.0, 0.0), s(0.5)));
}

#[test]
fn checkerboard_alternates_by_sign() {
    let board = match CheckerBoard::new(rgb(1.0, 0.1, 0.1), rgb(0.5, 0.1, 0.1), s(5.0)) {
        Texture::CheckerBoard(c) => c,
        _ => panic!("CheckerBoard::new makes a checkerboard"),
    };
    assert_eq!(board.cell_color(s(-0.2)), rgb(1.0, 0.1, 0.1));
    assert_eq!(board.cell_color(s(0.2)), rgb(0.5, 0.1, 0.1));
    assert_eq!(board.cell_color(s(0.0)), rgb(0.5, 0.1, 0.1));
    assert_eq!(board.cell_color(s(-0.0)), rgb(0.5, 0.1, 0.1));
    assert_eq!(board.cell_color(s(f32::NAN)), rgb(0.5, 0.1, 0.1));
}

#[test]
fn named_colours() {
    assert_eq!(Color::black(), rgb(0.0, 0.0, 0.0));
    assert_eq!(Color::white(), rgb(1.0, 1.0, 1.0));
    assert_eq!(Color::red(), rgb(1.0, 0.0, 0.0));
    assert_eq!(Color::green(), rgb(0.0, 1.0, 0.0));
    assert_eq!(Color::blue(), rgb(0.0, 0.0, 1.0));
}

#[test]
fn colours_as_bytes() {
    assert_eq!(rgb(255.0, 127.5, 0.0).to_slice(), [255, 127, 0]);
    assert_eq!(rgb(300.0, -4.0, f32::NAN).to_slice(), [255, 0, 0]);
    assert_eq!(rgb(0.999, 1.0, 254.999).to_vec_u8(), vec![0, 1, 254]);
    let mut k = 0;
    while k < 600 {
        let x = k as f32 * 0.5 - 20.0;
        let expected = x.max(0.0).min(255.0) as u8;
        assert_eq!(rgb(x, x, x).to_slice(), [expected, expected, expected]);
        k += 1;
    }
}

#[test]
fn colours_held_to_the_unit_range() {
    assert_eq!(rgb(0.25, 1.5, -3.0).to_vec_f32(), vec![s(0.25), s(1.0), s(0.0)]);
    assert_eq!(rgb(f32::NAN, 1.0, 0.0).to_vec_f32(), vec![s(0.0), s(1.0), s(0.0)]);
    assert_eq!(rgb(f32::INFINITY, f32::NEG_INFINITY, 0.5).to_vec_f32(), vec![s(1.0), s(0.0), s(0.5)]);
}

fn a(p: Vec3) -> [f32; 3] {
    [f(p.x), f(p.y), f(p.z)]
}

fn dot(p: [f32; 3], q: [f32; 3]) -> f32 {
    p[0] * q[0] + p[1] * q[1] + p[2] * q[2]
}

fn unit(p: [f32; 3]) -> [f32; 3] {
    let l = dot(p, p).sqrt();
    [p[0] / l, p[1] / l, p[2] / l]
}

fn reflect(d: [f32; 3], n: [f32; 3]) -> [f32; 3] {
    let k = 2.0 * dot(d, n);
    [d[0] - k * n[0], d[1] - k * n[1], d[2] - k * n[2]]
}

fn refract(uv: [f32; 3], n: [f32; 3], ratio: f32) -> [f32; 3] {
    let cos_theta = (-dot(uv, n)).min(1.0);
    let perp = [
        ratio * (uv[0] + cos_theta * n[0]),
        ratio * (uv[1] + cos_theta * n[1]),
        ratio * (uv[2] + cos_theta * n[2]),
    ];
    let k = -((1.0 - dot(perp, perp)).abs().sqrt());
    [perp[0] + k * n[0], perp[1] + k * n[1], perp[2] + k * n[2]]
}

fn reflectance(cosine: f32, ref_idx: f32) -> f32 {
    let mut r0 = (1.0 - ref_idx) / (1.0 + ref_idx);
    r0 *= r0;
    r0 + (1.0 - r0) * (1.0 - cosine).powi(5)
}

fn w(p: [f32; 3]) -> Vec3 {
    v(p[0], p[1], p[2])
}

/// The arithmetic of the materials, with every random draw fixed: the random
/// unit vector is `random`, the number drawn for a clear body is `draw`.
fn optics_with(
    random: [f32; 3],
    draw: f32,
) -> Optics<
    impl Fn(&Intersection) -> Vec3,
    impl Fn(Vec3, Vec3) -> Scalar,
    impl Fn(&Ray, &Intersection) -> Vec3,
    impl Fn(Vec3, Scalar) -> Vec3,
    impl Fn(Scalar) -> Scalar,
    impl Fn(&Ray, Vec3, Scalar) -> Bending,
    impl Fn() -> Vec3,
> {
    Optics {
        toss: move |i: &Intersection| -> Vec3 {
            let n = a(i.normal);
            v(n[0] + random[0], n[1] + random[1], n[2] + random[2])
        },
        dot: |p: Vec3, q: Vec3| -> Scalar { s(dot(a(p), a(q))) },
        mirror: |r: &Ray, i: &Intersection| -> Vec3 { w(reflect(unit(a(r.direction)), a(i.normal))) },
        blur: move |d: Vec3, fuzz: Scalar| -> Vec3 {
            let d = a(d);
            v(d[0] + f(fuzz) * random[0], d[1] + f(fuzz) * random[1], d[2] + f(fuzz) * random[2])
        },
        inverse: |x: Scalar| -> Scalar { s(1.0 / f(x)) },
        bend: move |r: &Ray, normal: Vec3, ratio: Scalar| -> Bending {
            let n = a(normal);
            let u = unit(a(r.direction));
            let cos_theta = (-dot(u, n)).min(1.0);
            let sin_theta = (1.0 - cos_theta * cos_theta).sqrt();
            Bending {
                ratio_times_sine: s(f(ratio) * sin_theta),
                reflectance: s(reflectance(cos_theta, f(ratio))),
                draw: s(draw),
                mirrored: w(reflect(u, n)),
                bent: w(refract(u, n, f(ratio))),
            }
        },
        any: move || -> Vec3 { w(random) },
    }
}

fn slanted() -> Ray {
    Ray::new(v(4.0, 6.0, 3.0), v(-3.0, -4.0, 0.0), s(0.5))
}

#[test]
fn matte_bounce_is_the_normal_plus_a_random_unit_vector() {
    let m = Lambertian::new(orange());
    let i = hit(&m);
    let b = m.bounce(&slanted(), &i, &optics_with([0.0, 0.0, 1.0], 0.5));
    assert_eq!(b.direction, v(0.0, 1.0, 1.0));
    // A sum that is near zero is replaced by the normal, wherever the hit.
    let b = m.bounce(&slanted(), &i, &optics_with([0.0, -1.0, 0.0], 0.5));
    assert_eq!(b.direction, v(0.0, 1.0, 0.0));
    let at_origin = Intersection::new(s(1.0), v(0.0, 0.0, 0.0), v(0.0, 1.0, 0.0), v(0.0, 1.0, 0.0), &m, i.uv);
    let b = m.bounce(&slanted(), &at_origin, &optics_with([0.0, -1.0, 0.0], 0.5));
    assert_eq!(b.direction, v(0.0, 1.0, 0.0));
    let b = m.bounce(&slanted(), &at_origin, &optics_with([0.0, 0.0, 1.0], 0.5));
    assert_eq!(b.direction, v(0.0, 1.0, 1.0));
}

#[test]
fn mirror_bounce_is_the_mirrored_direction_blurred() {
    let m = Metal::new(orange(), s(0.5));
    let i = hit(&m);
    let b = m.bounce(&slanted(), &i, &optics_with([0.0, 0.0, 1.0], 0.5));
    assert_eq!(b.direction, v(-0.6, 0.8, 0.5));
    assert_eq!(b.facing, s(0.8));
    let (_, onward) = m.scatter(&slanted(), &i, &sample, &optics_with([0.0, 0.0, 1.0], 0.5)).unwrap();
    assert_eq!(onward.direction, v(-0.6, 0.8, 0.5));
    // From behind the surface the mirrored direction points into it.
    let from_below = Ray::new(v(4.0, -6.0, 3.0), v(-3.0, 4.0, 0.0), s(0.5));
    let b = m.bounce(&from_below, &i, &optics_with([0.0, 0.0, 1.0], 0.5));
    assert_eq!(b.facing, s(-0.8));
    assert!(m.scatter(&from_below, &i, &sample, &optics_with([0.0, 0.0, 1.0], 0.5)).is_none());
}

#[test]
fn mirror_absorbs_a_ray_that_the_blur_turns_into_the_surface() {
    let m = Metal::new(orange(), s(0.5));
    let i = hit(&m);
    // A flat ray: mirrored it rises by 0.28, and a blur of half a unit
    // downward turns it into the surface.
    let flat = Ray::new(v(5.0, 3.0, 3.0), v(-0.96, -0.28, 0.0), s(0.5));
    let down = optics_with([0.0, -1.0, 0.0], 0.5);
    let b = m.bounce(&flat, &i, &down);
    assert!((f(b.direction.y) - (0.28 - 0.5)).abs() < 1e-6);
    assert!(f(b.facing) < 0.0);
    assert!(m.scatter(&flat, &i, &sample, &down).is_none());
    // The same ray with a blur upward is sent on, blurred.
    let up = optics_with([0.0, 1.0, 0.0], 0.5);
    let (_, onward) = m.scatter(&flat, &i, &sample, &up).unwrap();
    assert!((f(onward.direction.y) - (0.28 + 0.5)).abs() < 1e-6);
}

#[test]
fn dielectric_with_unit_index_does_not_bend() {
    let m = Dielectric::new(s(1.0));
    let i = hit(&m);
    let incoming = unit([-3.0, -4.0, 0.0]);
    // Entering, with a draw above the reflectance.
    let b = m.bounce(&slanted(), &i, &optics_with([0.0, 0.0, 1.0], 0.99));
    let d = a(b.direction);
    for k in 0..3 {
        assert!((d[k] - incoming[k]).abs() < 1e-6, "{:?} {:?}", d, incoming);
    }
    // Leaving.
    let from_below = Ray::new(v(4.0, -6.0, 3.0), v(-3.0, 4.0, 0.0), s(0.5));
    let outgoing = unit([-3.0, 4.0, 0.0]);
    let b = m.bounce(&from_below, &i, &optics_with([0.0, 0.0, 1.0], 0.99));
    let d = a(b.direction);
    for k in 0..3 {
        assert!((d[k] - outgoing[k]).abs() < 1e-6, "{:?} {:?}", d, outgoing);
    }
}

#[test]
fn dielectric_bends_towards_the_normal_on_entry() {
    let m = Dielectric::new(s(1.5));
    let i = hit(&m);
    let b = m.bounce(&slanted(), &i, &optics_with([0.0, 0.0, 1.0], 0.99));
    let d = a(b.direction);
    // Snell: the sine of the angle to the normal shrinks by the index.
    assert!((d[0] - (-0.6 / 1.5)).abs() < 1e-6);
    assert!(d[1] < 0.0);
    assert!((dot(d, d) - 1.0).abs() < 1e-5);
    // With a draw below the reflectance the ray is mirrored.
    let b = m.bounce(&slanted(), &i, &optics_with([0.0, 0.0, 1.0], 0.0));
    let d = a(b.direction);
    assert!((d[0] + 0.6).abs() < 1e-6 && (d[1] - 0.8).abs() < 1e-6);
}

#[test]
fn dielectric_mirrors_a_ray_that_cannot_leave() {
    let m = Dielectric::new(s(1.5));
    let i = hit(&m);
    // From inside at a flat angle: 1.5 times the sine is above one.
    let flat = Ray::new(v(4.0, -1.0, 3.0), v(-4.0, 1.0, 0.0), s(0.5));
    let b = m.bounce(&flat, &i, &optics_with([0.0, 0.0, 1.0], 0.99));
    let d = a(b.direction);
    let u = unit([-4.0, 1.0, 0.0]);
    assert!((d[0] - u[0]).abs() < 1e-6 && (d[1] + u[1]).abs() < 1e-6);
}

#[test]
fn medium_bounce_goes_any_way_and_others_along_the_normal() {
    let i = hit(&Isotropic::new(orange()));
    let o = optics_with([0.0, 0.6, -0.8], 0.5);
    assert_eq!(Isotropic::new(orange()).bounce(&slanted(), &i, &o).direction, v(0.0, 0.6, -0.8));
    assert_eq!(EmissiveDiffuse::new(orange()).bounce(&slanted(), &i, &o).direction, v(0.0, 1.0, 0.0));
    assert_eq!(Glossy::new(orange(), s(0.2)).bounce(&slanted(), &i, &o).direction, v(0.0, 1.0, 0.0));
}
