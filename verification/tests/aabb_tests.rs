use pathtracer::aabb::{surrounding_box, Aabb, Crossing};
use pathtracer::ray::Ray;
use pathtracer::scalar::Scalar;
use pathtracer::vec3::Vec3;

fn s(x: f32) -> Scalar {
    Scalar::from_bits(x.to_bits())
}

fn f(x: Scalar) -> f32 {
    f32::from_bits(x.to_bits())
}

fn v(x: f32, y: f32, z: f32) -> Vec3 {
    Vec3::new(s(x), s(y), s(z))
}

fn aabb(min: [f32; 3], max: [f32; 3]) -> Aabb {
    Aabb { min: v(min[0], min[1], min[2]), max: v(max[0], max[1], max[2]) }
}

/// The slab test as it is written with floating-point numbers.
fn reference_hit(
    min: [f32; 3],
    max: [f32; 3],
    origin: [f32; 3],
    direction: [f32; 3],
    mut tmin: f32,
    mut tmax: f32,
) -> bool {
    for a in 0..3 {
        let mint = (min[a] - origin[a]) / direction[a];
        let maxt = (max[a] - origin[a]) / direction[a];
        let t0 = mint.min(maxt);
        let t1 = mint.max(maxt);
        tmin = t0.max(tmin);
        tmax = t1.min(tmax);
        if tmax <= tmin {
            return false;
        }
    }
    true
}

fn crossing(min: f32, max: f32, origin: f32, direction: f32) -> Crossing {
    Crossing { at_min: s((min - origin) / direction), at_max: s((max - origin) / direction) }
}

fn library_hit(
    min: [f32; 3],
    max: [f32; 3],
    origin: [f32; 3],
    direction: [f32; 3],
    tmin: f32,
    tmax: f32,
) -> bool {
    Aabb::hit(
        crossing(min[0], max[0], origin[0], direction[0]),
        crossing(min[1], max[1], origin[1], direction[1]),
        crossing(min[2], max[2], origin[2], direction[2]),
        s(tmin),
        s(tmax),
    )
}

#[test]
fn ray_through_the_middle_hits() {
    let min = [-1.0, -1.0, -1.0];
    let max = [1.0, 1.0, 1.0];
    assert!(library_hit(min, max, [0.0, 0.0, 5.0], [0.1, 0.05, -1.0], 0.001, f32::MAX));
}

#[test]
fn ray_pointing_away_misses() {
    let min = [-1.0, -1.0, -1.0];
    let max = [1.0, 1.0, 1.0];
    assert!(!library_hit(min, max, [0.0, 0.0, 5.0], [0.1, 0.05, 1.0], 0.001, f32::MAX));
}

#[test]
fn ray_passing_beside_misses() {
    let min = [-1.0, -1.0, -1.0];
    let max = [1.0, 1.0, 1.0];
    assert!(!library_hit(min, max, [3.0, 0.0, 5.0], [0.01, 0.01, -1.0], 0.001, f32::MAX));
}

#[test]
fn window_that_ends_before_the_box_misses() {
    let min = [-1.0, -1.0, -1.0];
    let max = [1.0, 1.0, 1.0];
    assert!(!library_hit(min, max, [0.0, 0.0, 5.0], [0.1, 0.05, -1.0], 0.001, 3.0));
    assert!(library_hit(min, max, [0.0, 0.0, 5.0], [0.1, 0.05, -1.0], 0.001, 4.5));
}

#[test]
fn window_that_starts_behind_the_box_misses() {
    let min = [-1.0, -1.0, -1.0];
    let max = [1.0, 1.0, 1.0];
    assert!(!library_hit(min, max, [0.0, 0.0, 5.0], [0.1, 0.05, -1.0], 7.0, f32::MAX));
}

#[test]
fn axis_aligned_ray_inside_the_slabs_hits() {
    // Two direction components are zero: the crossings on those axes are
    // infinite, of opposite signs, and do not narrow the window.
    let min = [-1.0, -1.0, -1.0];
    let max = [1.0, 1.0, 1.0];
    assert!(library_hit(min, max, [0.5, -0.5, 5.0], [0.0, 0.0, -1.0], 0.001, f32::MAX));
}

#[test]
fn axis_aligned_ray_outside_a_slab_misses() {
    let min = [-1.0, -1.0, -1.0];
    let max = [1.0, 1.0, 1.0];
    assert!(!library_hit(min, max, [2.0, 0.0, 5.0], [0.0, 0.0, -1.0], 0.001, f32::MAX));
}

#[test]
fn grazing_ray_with_one_nan_crossing_misses() {
    // The origin lies on the plane x = 1 and the ray runs within it: the
    // crossing of that plane is 0 / 0.
    let x = crossing(-1.0, 1.0, 1.0, 0.0);
    assert!(!f(x.at_min).is_nan());
    assert!(f(x.at_max).is_nan());
    let y = crossing(-1.0, 1.0, 0.0, 0.0);
    let z = crossing(-1.0, 1.0, 5.0, -1.0);
    assert!(!Aabb::hit(x, y, z, s(0.001), s(f32::MAX)));
}

#[test]
fn axis_with_two_nan_crossings_does_not_narrow() {
    let nan = Crossing { at_min: s(f32::NAN), at_max: s(f32::NAN) };
    let z = crossing(-1.0, 1.0, 5.0, -1.0);
    assert!(Aabb::hit(nan, nan, z, s(0.001), s(f32::MAX)));
    assert!(!Aabb::hit(nan, nan, z, s(0.001), s(3.0)));
}

#[test]
fn hit_matches_the_floating_point_slab_test() {
    let boxes = [
        ([-1.0, -1.0, -1.0], [1.0, 1.0, 1.0]),
        ([0.0, 0.0, 0.0], [2.0, 0.5, 3.0]),
        ([-5.0, 2.0, -0.25], [-4.0, 2.0001, 0.25]),
    ];
    let mut checked = 0;
    let mut hits = 0;
    for (min, max) in boxes.iter() {
        for i in 0..9 {
            for j in 0..9 {
                for k in 0..5 {
                    let origin = [i as f32 - 4.0, (j as f32) * 0.5 - 2.0, 5.0 - k as f32 * 2.5];
                    for d in 0..27 {
                        let direction = [
                            (d % 3) as f32 - 1.0,
                            ((d / 3) % 3) as f32 * 0.5 - 0.5,
                            (d / 9) as f32 - 1.0,
                        ];
                        for (tmin, tmax) in [(0.001, f32::MAX), (0.001, 4.0), (-f32::MAX, f32::MAX)] {
                            let expected = reference_hit(*min, *max, origin, direction, tmin, tmax);
                            let got = library_hit(*min, *max, origin, direction, tmin, tmax);
                            assert_eq!(got, expected, "{:?} {:?} {:?} {:?}", min, max, origin, direction);
                            checked += 1;
                            if got {
                                hits += 1;
                            }
                        }
                    }
                }
            }
        }
    }
    assert!(checked > 30000);
    assert!(hits > 100);
}

#[test]
fn surrounding_box_takes_componentwise_extremes() {
    let a = aabb([0.0, -1.0, 2.0], [1.0, 0.0, 3.0]);
    let b = aabb([-2.0, 0.5, 2.5], [0.5, 4.0, 2.75]);
    let r = surrounding_box(&a, &b);
    assert_eq!(r, aabb([-2.0, -1.0, 2.0], [1.0, 4.0, 3.0]));
}

#[test]
fn surrounding_box_contains_both() {
    let list = [
        aabb([0.0, -1.0, 2.0], [1.0, 0.0, 3.0]),
        aabb([-2.0, 0.5, 2.5], [0.5, 4.0, 2.75]),
        aabb([-0.0, 0.0, 0.0], [0.0, 0.0, 0.0]),
        aabb([-1e30, -1e-30, 5.0], [1e30, 1e-30, 5.0]),
        aabb([f32::NEG_INFINITY, 0.0, 0.0], [f32::INFINITY, 1.0, 1.0]),
    ];
    for a in list.iter() {
        for b in list.iter() {
            let r = surrounding_box(a, b);
            for inner in [a, b] {
                for axis in 0..3 {
                    assert!(f(r.min.get(axis)) <= f(inner.min.get(axis)));
                    assert!(f(inner.max.get(axis)) <= f(r.max.get(axis)));
                    assert!(f(r.min.get(axis)) <= f(r.max.get(axis)));
                }
            }
        }
    }
}

#[test]
fn surrounding_box_of_a_box_with_itself_is_the_box() {
    let a = aabb([0.0, -1.0, 2.0], [1.0, 0.0, 3.0]);
    assert_eq!(surrounding_box(&a, &a), a);
}

#[test]
fn vec3_components_by_axis() {
    let mut p = v(1.0, 2.0, 3.0);
    assert_eq!(p.get(0), s(1.0));
    assert_eq!(p.get(1), s(2.0));
    assert_eq!(p.get(2), s(3.0));
    p.set(1, s(9.0));
    assert_eq!(p, v(1.0, 9.0, 3.0));
    p.set(0, s(-4.0));
    p.set(2, s(0.5));
    assert_eq!(p, v(-4.0, 9.0, 0.5));
    assert_eq!(p.neg(), v(4.0, -9.0, -0.5));
    assert_eq!(Vec3::zero(), v(0.0, 0.0, 0.0));
    assert_eq!(p.to_vec_f32(), vec![s(-4.0), s(9.0), s(0.5)]);
    assert_eq!(v(1.0, 5.0, -1.0).min(&v(2.0, 4.0, -3.0)), v(1.0, 4.0, -3.0));
    assert_eq!(v(1.0, 5.0, -1.0).max(&v(2.0, 4.0, -3.0)), v(2.0, 5.0, -1.0));
}

fn slab(bound: Scalar, origin: Scalar, direction: Scalar) -> Scalar {
    s((f(bound) - f(origin)) / f(direction))
}

#[test]
fn crossing_of_a_ray_with_a_slab() {
    let b = aabb([-1.0, -2.0, -3.0], [1.0, 2.0, 3.0]);
    let r = Ray::new(v(0.0, 4.0, 6.0), v(1.0, -2.0, 0.0), s(0.0));
    assert_eq!(b.crossing(&r, &slab, 0), Crossing { at_min: s(-1.0), at_max: s(1.0) });
    assert_eq!(b.crossing(&r, &slab, 1), Crossing { at_min: s(3.0), at_max: s(1.0) });
    assert_eq!(
        b.crossing(&r, &slab, 2),
        Crossing { at_min: s(f32::NEG_INFINITY), at_max: s(f32::NEG_INFINITY) }
    );
}

#[test]
fn hit_ray_matches_the_floating_point_slab_test() {
    let mut hits = 0;
    let min = [-1.0, -0.5, -2.0];
    let max = [1.0, 0.5, 2.0];
    let b = aabb(min, max);
    for i in 0..9 {
        for j in 0..9 {
            for d in 0..27 {
                let origin = [i as f32 - 4.0, (j as f32) * 0.5 - 2.0, 5.0];
                let direction = [(d % 3) as f32 - 1.0, ((d / 3) % 3) as f32 * 0.5 - 0.5, (d / 9) as f32 - 1.0];
                let r = Ray::new(
                    v(origin[0], origin[1], origin[2]),
                    v(direction[0], direction[1], direction[2]),
                    s(0.0),
                );
                let expected = reference_hit(min, max, origin, direction, 0.001, f32::MAX);
                assert_eq!(b.hit_ray(&r, s(0.001), s(f32::MAX), &slab), expected);
                if expected {
                    hits += 1;
                }
            }
        }
    }
    assert!(hits > 20);
}
