//! The primitives: spheres, axis-aligned rectangles, boxes, triangles,
//! participating media and hierarchies of primitives.
//!
//! A primitive holds its geometry as scalars. What it takes arithmetic to
//! find (where a ray crosses a plane, the roots of a quadratic) is handed to
//! the functions here; they decide whether there is a hit and put the hit
//! record together.

use vstd::prelude::*;
use crate::aabb::Aabb;
use crate::bvh::{
    answers_of_box_test, answers_of_leaf_test, indexed, lemma_outcome_is_monotone, outcome,
    BvhNode, BvhTree,
};
use crate::intersection::Intersection;
use crate::materials::Material;
use crate::ray::{nearest_of, outcomes_of, select_first, Ray};
use crate::scalar::{Scalar, MAX_BITS, ONE_BITS, SIGN_BIT};
use crate::texture::Uv;
use crate::vec3::Vec3;

verus! {

/// The bit pattern of 0.0001: half the thickness that the bounding box of a
/// rectangle is given along the rectangle's fixed axis.
pub const PLANE_PAD_BITS: u32 = 0x38d1_b717;

/// The bit pattern of 0.0001: a triangle whose determinant against a ray is
/// smaller in absolute value is taken to be parallel to the ray.
pub const PARALLEL_BITS: u32 = 0x38d1_b717;

/// The kinds of primitive.
#[derive(Debug)]
pub enum Object {
    Sphere(Sphere),
    Plane(Plane),
    Box(BoxObj),
    ConstantMedium(ConstantMedium),
    Triangle(Triangle),
    BigObject(BigObject),
}

/// A sphere.
#[derive(Clone, Copy, Debug, PartialEq, Eq, Structural)]
pub struct Sphere {
    pub center: Vec3,
    pub radius: Scalar,
    pub material: Material,
}

/// Which two axes a rectangle spans; the third axis is the one it is fixed
/// on.
#[derive(Clone, Copy, Debug, PartialEq, Eq, Structural)]
pub enum PlaneType {
    YZ,
    ZX,
    XY,
}

/// An axis-aligned rectangle: the points at `k` on the fixed axis whose other
/// two coordinates lie in `a0..a1` and `b0..b1`.
#[derive(Clone, Copy, Debug, PartialEq, Eq, Structural)]
pub struct Plane {
    pub plane_type: PlaneType,
    pub a0: Scalar,
    pub a1: Scalar,
    pub b0: Scalar,
    pub b1: Scalar,
    pub k: Scalar,
    pub material: Material,
}

/// A box, made of six rectangles.
#[derive(Debug)]
pub struct BoxObj {
    pub min: Vec3,
    pub max: Vec3,
    pub faces: Vec<Object>,
}

/// A triangle with the normal of its face.
#[derive(Clone, Copy, Debug, PartialEq, Eq, Structural)]
pub struct Triangle {
    pub v0: Vec3,
    pub v1: Vec3,
    pub v2: Vec3,
    pub normal: Vec3,
    pub material: Material,
}

/// A volume of constant density, bounded by a hierarchy of primitives.
#[derive(Debug)]
pub struct ConstantMedium {
    pub boundary: Bvh,
    pub density: Scalar,
    pub phase_function: Material,
}

/// A hierarchy of primitives that stands as one primitive.
#[derive(Debug)]
pub struct BigObject {
    pub objects: Bvh,
}

/// A list of primitives with the hierarchy over them.
#[derive(Debug)]
pub struct Bvh {
    pub objects: Vec<Object>,
    pub boxes: Vec<Aabb>,
    pub tree: BvhTree,
    pub bbox: Aabb,
}

/// What solving the quadratic of a ray and a sphere gives: the discriminant
/// and the two roots, the smaller first.
#[derive(Clone, Copy, Debug, PartialEq, Eq, Structural)]
pub struct Roots {
    pub discriminant: Scalar,
    pub near: Scalar,
    pub far: Scalar,
}

/// The surface of a primitive where a ray meets it: the point, the shading
/// normal, the outward normal and the surface coordinates.
#[derive(Clone, Copy, Debug, PartialEq, Eq, Structural)]
pub struct Surface {
    pub point: Vec3,
    pub normal: Vec3,
    pub outward_normal: Vec3,
    pub uv: Uv,
}

/// Where a ray crosses the plane of a rectangle: the ray parameter `t`, the
/// coordinates `a` and `b` of the crossing on the two axes that the
/// rectangle spans, the crossing point and its surface coordinates.
#[derive(Clone, Copy, Debug, PartialEq, Eq, Structural)]
pub struct PlaneCrossing {
    pub t: Scalar,
    pub a: Scalar,
    pub b: Scalar,
    pub point: Vec3,
    pub uv: Uv,
}

/// What the arithmetic finds for a ray and a triangle: the determinant, the
/// barycentric coordinates `u` and `v` and their sum, the ray parameter `t`
/// and the point at that parameter.
#[derive(Clone, Copy, Debug, PartialEq, Eq, Structural)]
pub struct TriangleSolution {
    pub det: Scalar,
    pub u: Scalar,
    pub v: Scalar,
    pub u_plus_v: Scalar,
    pub t: Scalar,
    pub point: Vec3,
}

/// The way of a ray through a medium: the distance that was drawn for it to
/// go before it scatters, the length of its way through the medium, and the
/// ray parameter and the point at which it scatters if it does.
#[derive(Clone, Copy, Debug, PartialEq, Eq, Structural)]
pub struct Passage {
    pub scatter_distance: Scalar,
    pub distance_inside: Scalar,
    pub distance: Scalar,
    pub point: Vec3,
}

/// The numbers on either side of `center` at the distance `half_width`, as
/// the caller's arithmetic finds them: every pair that `spread` can answer
/// with.
pub open spec fn spread_gives<S: Fn(Scalar, Scalar) -> (Scalar, Scalar)>(
    spread: &S,
    center: Scalar,
    half_width: Scalar,
    sides: (Scalar, Scalar),
) -> bool {
    call_ensures(spread, (center, half_width), sides)
}

impl Object {
    /// Whether `other` is a primitive of the same kind that holds the same,
    /// all the way down through boxes, media and hierarchies.
    pub open spec fn alike(self, other: Object) -> bool
        decreases self,
    {
        match self {
            Object::Sphere(a) => other == Object::Sphere(a),
            Object::Plane(a) => other == Object::Plane(a),
            Object::Triangle(a) => other == Object::Triangle(a),
            Object::Box(a) => other matches Object::Box(b) && a.min == b.min && a.max == b.max
                && a.faces.len() == b.faces.len() && forall|i: int|
                0 <= i < a.faces.len() ==> (#[trigger] a.faces[i]).alike(b.faces[i]),
            Object::ConstantMedium(a) => other matches Object::ConstantMedium(b) && a.density
                == b.density && a.phase_function == b.phase_function && a.boundary.alike(
                b.boundary,
            ),
            Object::BigObject(a) => other matches Object::BigObject(b) && a.objects.alike(
                b.objects,
            ),
        }
    }
}

impl Bvh {
    /// Whether `other` is a hierarchy with the same tree and the same boxes
    /// over primitives that are alike, one by one.
    pub open spec fn alike(self, other: Bvh) -> bool
        decreases self,
    {
        &&& self.objects.len() == other.objects.len()
        &&& forall|i: int|
            0 <= i < self.objects.len() ==> (#[trigger] self.objects[i]).alike(other.objects[i])
        &&& self.boxes@ == other.boxes@
        &&& self.tree.nodes() == other.tree.nodes()
        &&& self.tree.root() == other.tree.root()
        &&& self.bbox == other.bbox
    }
}

/// A hierarchy that is like a sound one is sound.
pub proof fn lemma_alike_keeps_wf(a: Bvh, b: Bvh)
    requires
        a.alike(b),
        a.wf(),
    ensures
        b.wf(),
{
}

impl Clone for Object {
    /// A primitive that is like this one.
    fn clone(&self) -> (r: Object)
        ensures
            self.alike(r),
        decreases self,
    {
        match self {
            Object::Sphere(s) => Object::Sphere(*s),
            Object::Plane(p) => Object::Plane(*p),
            Object::Box(b) => Object::Box(b.clone()),
            Object::ConstantMedium(m) => Object::ConstantMedium(m.clone()),
            Object::Triangle(t) => Object::Triangle(*t),
            Object::BigObject(b) => Object::BigObject(b.clone()),
        }
    }
}

impl Clone for BoxObj {
    /// A box with the same corners and faces that are like the faces of this
    /// one.
    fn clone(&self) -> (r: BoxObj)
        ensures
            Object::Box(*self).alike(Object::Box(r)),
        decreases self,
    {
        let mut faces: Vec<Object> = Vec::new();
        let mut i: usize = 0;
        while i < self.faces.len()
            invariant
                i <= self.faces.len(),
                faces.len() == i,
                forall|j: int| 0 <= j < i ==> (#[trigger] self.faces[j]).alike(faces[j]),
            decreases self.faces.len() - i,
        {
            faces.push(self.faces[i].clone());
            i += 1;
        }
        BoxObj { min: self.min, max: self.max, faces }
    }
}

impl Clone for ConstantMedium {
    /// A medium of the same density and material within a boundary that is
    /// like the boundary of this one.
    fn clone(&self) -> (r: ConstantMedium)
        ensures
            Object::ConstantMedium(*self).alike(Object::ConstantMedium(r)),
        decreases self,
    {
        ConstantMedium {
            boundary: self.boundary.clone(),
            density: self.density,
            phase_function: self.phase_function,
        }
    }
}

impl Clone for BigObject {
    /// A hierarchy that is like this one.
    fn clone(&self) -> (r: BigObject)
        ensures
            Object::BigObject(*self).alike(Object::BigObject(r)),
        decreases self,
    {
        BigObject { objects: self.objects.clone() }
    }
}

impl Clone for Bvh {
    /// A hierarchy that is like this one.
    fn clone(&self) -> (r: Bvh)
        ensures
            self.alike(r),
        decreases self,
    {
        let mut objects: Vec<Object> = Vec::new();
        let mut i: usize = 0;
        while i < self.objects.len()
            invariant
                i <= self.objects.len(),
                objects.len() == i,
                forall|j: int| 0 <= j < i ==> (#[trigger] self.objects[j]).alike(objects[j]),
            decreases self.objects.len() - i,
        {
            objects.push(self.objects[i].clone());
            i += 1;
        }
        let mut boxes: Vec<Aabb> = Vec::new();
        let mut k: usize = 0;
        while k < self.boxes.len()
            invariant
                k <= self.boxes.len(),
                boxes@ =~= self.boxes@.subrange(0, k as int),
            decreases self.boxes.len() - k,
        {
            boxes.push(self.boxes[k]);
            k += 1;
        }
        assert(boxes@ =~= self.boxes@);
        Bvh { objects, boxes, tree: self.tree.clone(), bbox: self.bbox }
    }
}

impl Sphere {
    /// What `choose_root` answers.
    pub open spec fn spec_choose_root(
        discriminant: Scalar,
        near_root: Scalar,
        far_root: Scalar,
        t_min: Scalar,
        t_max: Scalar,
    ) -> Option<Scalar> {
        if !(Scalar { bits: 0 }).spec_le(discriminant) {
            None
        } else if near_root.spec_within(t_min, t_max) {
            Some(near_root)
        } else if far_root.spec_within(t_min, t_max) {
            Some(far_root)
        } else {
            None
        }
    }

    /// The box of a sphere from the two sides of its centre on each axis.
    pub open spec fn spec_bounds(
        x: (Scalar, Scalar),
        y: (Scalar, Scalar),
        z: (Scalar, Scalar),
    ) -> Aabb {
        Aabb { min: Vec3 { x: x.0, y: y.0, z: z.0 }, max: Vec3 { x: x.1, y: y.1, z: z.1 } }
    }

    /// Whether `b` can be the bounding box of the sphere under `spread`: on
    /// each axis it reaches from one side of the centre to the other, at the
    /// distance of the radius.
    pub open spec fn bounds_outcome<S: Fn(Scalar, Scalar) -> (Scalar, Scalar)>(
        self,
        spread: &S,
        b: Aabb,
    ) -> bool {
        exists|x: (Scalar, Scalar), y: (Scalar, Scalar), z: (Scalar, Scalar)|
            #![trigger Self::spec_bounds(x, y, z)]
            spread_gives(spread, self.center.x, self.radius, x) && spread_gives(
                spread,
                self.center.y,
                self.radius,
                y,
            ) && spread_gives(spread, self.center.z, self.radius, z) && b == Self::spec_bounds(
                x,
                y,
                z,
            )
    }

    pub fn new(center: Vec3, radius: Scalar, material: Material) -> (o: Object)
        ensures
            o == Object::Sphere(Sphere { center, radius, material }),
    {
        Object::Sphere(Sphere { center, radius, material })
    }

    /// Chooses the ray parameter at which a ray hits the sphere, from the
    /// discriminant of the quadratic and its two roots: none where the
    /// discriminant is negative or no number; else the smaller root if it
    /// lies in the window `t_min..t_max`, else the larger root if that lies
    /// in it. A root that is no number lies in no window.
    pub fn choose_root(
        discriminant: Scalar,
        near_root: Scalar,
        far_root: Scalar,
        t_min: Scalar,
        t_max: Scalar,
    ) -> (r: Option<Scalar>)
        ensures
            r == Self::spec_choose_root(discriminant, near_root, far_root, t_min, t_max),
    {
        if !Scalar::zero().le(discriminant) {
            return None;
        }
        let mut root = near_root;
        if !root.within(t_min, t_max) {
            root = far_root;
            if !root.within(t_min, t_max) {
                return None;
            }
        }
        Some(root)
    }

    /// The hit record of a ray that meets the sphere at the parameter `root`
    /// in the surface `at`.
    pub open spec fn hit_record(self, root: Scalar, at: Surface) -> Intersection {
        Intersection {
            distance: root,
            point: at.point,
            normal: at.normal,
            outward_normal: at.outward_normal,
            mat: self.material,
            uv: at.uv,
        }
    }

    /// Whether `r` can be the hit of a ray with the sphere within the window
    /// `t_min..t_max`. `solve` gives the discriminant and the roots of the
    /// quadratic; of these a root is chosen, and there is no hit where none
    /// can be; `surface` gives the surface at the chosen root.
    pub open spec fn intersects_outcome<
        Q: Fn(&Sphere, &Ray) -> Roots,
        F: Fn(&Sphere, &Ray, Scalar) -> Surface,
    >(self, ray: Ray, t_min: Scalar, t_max: Scalar, solve: &Q, surface: &F, r: Option<Intersection>) -> bool {
        exists|roots: Roots| #[trigger]
            call_ensures(solve, (&self, &ray), roots) && match Self::spec_choose_root(
                roots.discriminant,
                roots.near,
                roots.far,
                t_min,
                t_max,
            ) {
                None => r is None,
                Some(root) => exists|at: Surface| #[trigger]
                    call_ensures(surface, (&self, &ray, root), at) && r == Some(
                        self.hit_record(root, at),
                    ),
            }
    }

    /// The hit of a ray with the sphere within the window `t_min..t_max`:
    /// at the smaller root of the quadratic if that lies in the window, else
    /// at the larger root if that does. `solve` and `surface` do the
    /// arithmetic.
    pub fn intersects<Q: Fn(&Sphere, &Ray) -> Roots, F: Fn(&Sphere, &Ray, Scalar) -> Surface>(
        &self,
        ray: &Ray,
        t_min: Scalar,
        t_max: Scalar,
        solve: &Q,
        surface: &F,
    ) -> (r: Option<Intersection>)
        requires
            forall|s: &Sphere, r: &Ray| call_requires(solve, (s, r)),
            forall|s: &Sphere, r: &Ray, t: Scalar| call_requires(surface, (s, r, t)),
        ensures
            self.intersects_outcome(*ray, t_min, t_max, solve, surface, r),
    {
        let roots = solve(self, ray);
        match Sphere::choose_root(roots.discriminant, roots.near, roots.far, t_min, t_max) {
            None => None,
            Some(root) => {
                let at = surface(self, ray, root);
                Some(
                    Intersection::new(
                        root,
                        at.point,
                        at.normal,
                        at.outward_normal,
                        &self.material,
                        at.uv,
                    ),
                )
            },
        }
    }

    pub(crate) fn bounds<S: Fn(Scalar, Scalar) -> (Scalar, Scalar)>(&self, spread: &S) -> (b: Aabb)
        requires
            forall|c: Scalar, h: Scalar| call_requires(spread, (c, h)),
        ensures
            self.bounds_outcome(spread, b),
    {
        let x = spread(self.center.x, self.radius);
        let y = spread(self.center.y, self.radius);
        let z = spread(self.center.z, self.radius);
        let b = Aabb { min: Vec3::new(x.0, y.0, z.0), max: Vec3::new(x.1, y.1, z.1) };
        assert(b == Self::spec_bounds(x, y, z));
        b
    }

    /// The bounding box: the centre, spread by the radius on each axis.
    pub fn bounding_box<S: Fn(Scalar, Scalar) -> (Scalar, Scalar)>(&self, spread: &S) -> (r:
        Option<Aabb>)
        requires
            forall|c: Scalar, h: Scalar| call_requires(spread, (c, h)),
        ensures
            r is Some,
            self.bounds_outcome(spread, r->0),
    {
        Some(self.bounds(spread))
    }
}

impl PlaneType {
    /// The fixed axis, the axis of the `a` range and the axis of the `b`
    /// range, in this order.
    pub open spec fn axes(self) -> (int, int, int) {
        match self {
            PlaneType::YZ => (0, 1, 2),
            PlaneType::ZX => (1, 2, 0),
            PlaneType::XY => (2, 0, 1),
        }
    }
}

impl Plane {
    /// The box of the rectangle, given the two sides `lo` and `hi` of `k`:
    /// `lo..hi` on the fixed axis, the two ranges on the other two.
    pub open spec fn spec_bounds(self, lo: Scalar, hi: Scalar) -> Aabb {
        let (k_axis, a_axis, b_axis) = self.plane_type.axes();
        let origin = Vec3 { x: lo, y: lo, z: lo };
        Aabb {
            min: origin.with_component(k_axis, lo).with_component(a_axis, self.a0).with_component(
                b_axis,
                self.b0,
            ),
            max: origin.with_component(k_axis, hi).with_component(a_axis, self.a1).with_component(
                b_axis,
                self.b1,
            ),
        }
    }

    /// Whether `b` can be the bounding box of the rectangle under `spread`.
    pub open spec fn bounds_outcome<S: Fn(Scalar, Scalar) -> (Scalar, Scalar)>(
        self,
        spread: &S,
        b: Aabb,
    ) -> bool {
        exists|sides: (Scalar, Scalar)|
            #![trigger self.spec_bounds(sides.0, sides.1)]
            spread_gives(spread, self.k, Scalar { bits: PLANE_PAD_BITS }, sides) && b
                == self.spec_bounds(sides.0, sides.1)
    }

    /// The shading normal for a ray: one unit along the fixed axis, towards
    /// the side of the rectangle on which the ray starts.
    pub open spec fn spec_surface_normal(self, ray: Ray) -> Vec3 {
        let k_axis = self.plane_type.axes().0;
        let origin = Vec3 { x: Scalar { bits: 0 }, y: Scalar { bits: 0 }, z: Scalar { bits: 0 } };
        if self.k.spec_lt(ray.origin.component(k_axis)) {
            origin.with_component(k_axis, Scalar { bits: ONE_BITS })
        } else {
            origin.with_component(k_axis, Scalar { bits: (ONE_BITS + SIGN_BIT) as u32 })
        }
    }

    /// The outward normal: one unit along the fixed axis, towards growing
    /// coordinates. A rectangle has no inside; the side of growing
    /// coordinates is taken to be its outside, wherever it is hit.
    pub open spec fn spec_outward_normal(self) -> Vec3 {
        let origin = Vec3 { x: Scalar { bits: 0 }, y: Scalar { bits: 0 }, z: Scalar { bits: 0 } };
        origin.with_component(self.plane_type.axes().0, Scalar { bits: ONE_BITS })
    }

    /// Whether a ray that crosses the rectangle's plane at the parameter `t`,
    /// in the point with the coordinates `a` and `b` on the two spanned
    /// axes, hits the rectangle within the window `t_min..t_max`. A
    /// parameter or a coordinate that is no number gives no hit.
    pub open spec fn spec_accepts(
        self,
        t: Scalar,
        a: Scalar,
        b: Scalar,
        t_min: Scalar,
        t_max: Scalar,
    ) -> bool {
        &&& t.spec_within(t_min, t_max)
        &&& a.spec_within(self.a0, self.a1)
        &&& b.spec_within(self.b0, self.b1)
    }

    /// The hit of a ray with the rectangle within the window
    /// `t_min..t_max`, given where the ray crosses the rectangle's plane.
    pub open spec fn spec_intersects(
        self,
        ray: Ray,
        t_min: Scalar,
        t_max: Scalar,
        c: PlaneCrossing,
    ) -> Option<Intersection> {
        if self.spec_accepts(c.t, c.a, c.b, t_min, t_max) {
            Some(
                Intersection {
                    distance: c.t,
                    point: c.point,
                    normal: self.spec_surface_normal(ray),
                    outward_normal: self.spec_outward_normal(),
                    mat: self.material,
                    uv: c.uv,
                },
            )
        } else {
            None
        }
    }

    pub fn new(
        plane_type: PlaneType,
        a0: Scalar,
        a1: Scalar,
        b0: Scalar,
        b1: Scalar,
        k: Scalar,
        material: Material,
    ) -> (o: Object)
        ensures
            o == Object::Plane(Plane { plane_type, a0, a1, b0, b1, k, material }),
    {
        Object::Plane(Plane { plane_type, a0, a1, b0, b1, k, material })
    }

    /// The fixed axis, the axis of the `a` range and the axis of the `b`
    /// range, in this order.
    pub fn get_axis(plane_type: &PlaneType) -> (r: (usize, usize, usize))
        ensures
            (r.0 as int, r.1 as int, r.2 as int) == plane_type.axes(),
            r.0 < 3 && r.1 < 3 && r.2 < 3,
            r.0 != r.1 && r.1 != r.2 && r.0 != r.2,
    {
        match plane_type {
            PlaneType::YZ => (0, 1, 2),
            PlaneType::ZX => (1, 2, 0),
            PlaneType::XY => (2, 0, 1),
        }
    }

    /// The shading normal for a ray.
    pub fn surface_normal(&self, ray: &Ray) -> (n: Vec3)
        ensures
            n == self.spec_surface_normal(*ray),
    {
        let (k_axis, _a_axis, _b_axis) = Plane::get_axis(&self.plane_type);
        let mut normal = Vec3::zero();
        if ray.origin.get(k_axis).gt(self.k) {
            normal.set(k_axis, Scalar::one());
        } else {
            normal.set(k_axis, Scalar::one().neg());
        }
        normal
    }

    /// The outward normal at any point of the rectangle: one unit along the
    /// fixed axis, towards growing coordinates.
    pub fn outward_normal(&self) -> (n: Vec3)
        ensures
            n == self.spec_outward_normal(),
    {
        let (k_axis, _a_axis, _b_axis) = Plane::get_axis(&self.plane_type);
        let mut normal = Vec3::zero();
        normal.set(k_axis, Scalar::one());
        normal
    }

    /// The hit of a ray with the rectangle, from what the caller's arithmetic
    /// found: the parameter `t` at which the ray crosses the plane, the
    /// coordinates `a` and `b` of the crossing on the two spanned axes, the
    /// crossing `point` and its surface coordinates `uv`. There is a hit if
    /// and only if `t` lies in the window and `a` and `b` in their ranges.
    pub fn intersects(
        &self,
        ray: &Ray,
        t_min: Scalar,
        t_max: Scalar,
        t: Scalar,
        a: Scalar,
        b: Scalar,
        point: Vec3,
        uv: Uv,
    ) -> (r: Option<Intersection>)
        ensures
            r == self.spec_intersects(*ray, t_min, t_max, PlaneCrossing { t, a, b, point, uv }),
    {
        if !t.within(t_min, t_max) {
            None
        } else if !a.within(self.a0, self.a1) || !b.within(self.b0, self.b1) {
            None
        } else {
            Some(
                Intersection::new(
                    t,
                    point,
                    self.surface_normal(ray),
                    self.outward_normal(),
                    &self.material,
                    uv,
                ),
            )
        }
    }

    pub(crate) fn bounds<S: Fn(Scalar, Scalar) -> (Scalar, Scalar)>(&self, spread: &S) -> (b: Aabb)
        requires
            forall|c: Scalar, h: Scalar| call_requires(spread, (c, h)),
        ensures
            self.bounds_outcome(spread, b),
    {
        let sides = spread(self.k, Scalar::from_bits(PLANE_PAD_BITS));
        let b = match self.plane_type {
            PlaneType::YZ => Aabb {
                min: Vec3::new(sides.0, self.a0, self.b0),
                max: Vec3::new(sides.1, self.a1, self.b1),
            },
            PlaneType::ZX => Aabb {
                min: Vec3::new(self.b0, sides.0, self.a0),
                max: Vec3::new(self.b1, sides.1, self.a1),
            },
            PlaneType::XY => Aabb {
                min: Vec3::new(self.a0, self.b0, sides.0),
                max: Vec3::new(self.a1, self.b1, sides.1),
            },
        };
        assert(b == self.spec_bounds(sides.0, sides.1));
        b
    }

    /// The bounding box: the two ranges on the spanned axes, and `k` spread
    /// by a ten-thousandth on the fixed axis, so that the box has a volume.
    pub fn bounding_box<S: Fn(Scalar, Scalar) -> (Scalar, Scalar)>(&self, spread: &S) -> (r:
        Option<Aabb>)
        requires
            forall|c: Scalar, h: Scalar| call_requires(spread, (c, h)),
        ensures
            r is Some,
            self.bounds_outcome(spread, r->0),
    {
        Some(self.bounds(spread))
    }
}

/// The six faces of the box with the corners `min` and `max`: the bottom,
/// the front, the back, the top, the right and the left side, in this order.
pub open spec fn box_faces(min: Vec3, max: Vec3, material: Material) -> Seq<Plane> {
    seq![
        Plane {
            plane_type: PlaneType::ZX,
            a0: min.z,
            a1: max.z,
            b0: min.x,
            b1: max.x,
            k: min.y,
            material,
        },
        Plane {
            plane_type: PlaneType::XY,
            a0: min.x,
            a1: max.x,
            b0: min.y,
            b1: max.y,
            k: max.z,
            material,
        },
        Plane {
            plane_type: PlaneType::XY,
            a0: min.x,
            a1: max.x,
            b0: min.y,
            b1: max.y,
            k: min.z,
            material,
        },
        Plane {
            plane_type: PlaneType::ZX,
            a0: min.z,
            a1: max.z,
            b0: min.x,
            b1: max.x,
            k: max.y,
            material,
        },
        Plane {
            plane_type: PlaneType::YZ,
            a0: min.y,
            a1: max.y,
            b0: min.z,
            b1: max.z,
            k: max.x,
            material,
        },
        Plane {
            plane_type: PlaneType::YZ,
            a0: min.y,
            a1: max.y,
            b0: min.z,
            b1: max.z,
            k: min.x,
            material,
        },
    ]
}

/// Whether `faces` are the six faces of the box with the corners `min` and
/// `max`.
pub open spec fn is_box(faces: Seq<Object>, min: Vec3, max: Vec3, material: Material) -> bool {
    &&& faces.len() == 6
    &&& forall|i: int|
        0 <= i < 6 ==> #[trigger] faces[i] == Object::Plane(box_faces(min, max, material)[i])
}

/// Every face of a box is fixed at the corner `min` or the corner `max` on
/// its fixed axis, and spans the box on its two other axes.
pub proof fn lemma_box_faces_span_the_box(min: Vec3, max: Vec3, material: Material, i: int)
    requires
        0 <= i < 6,
    ensures
        ({
            let face = box_faces(min, max, material)[i];
            let (k_axis, a_axis, b_axis) = face.plane_type.axes();
            &&& face.k == min.component(k_axis) || face.k == max.component(k_axis)
            &&& face.a0 == min.component(a_axis) && face.a1 == max.component(a_axis)
            &&& face.b0 == min.component(b_axis) && face.b1 == max.component(b_axis)
            &&& face.material == material
        }),
{
}

/// The faces of a box at the places 0, 2 and 5 lie at its minimum corner, the
/// others at its maximum corner: so an outward normal that is turned round
/// at these three places points away from the inside of the box at all six.
pub proof fn lemma_box_faces_at_minimum(min: Vec3, max: Vec3, material: Material, i: int)
    requires
        0 <= i < 6,
    ensures
        ({
            let face = box_faces(min, max, material)[i];
            let k_axis = face.plane_type.axes().0;
            &&& at_minimum(i) ==> face.k == min.component(k_axis)
            &&& !at_minimum(i) ==> face.k == max.component(k_axis)
            &&& turned_outward(
                i,
                Some(
                    Intersection {
                        distance: face.k,
                        point: min,
                        normal: min,
                        outward_normal: face.spec_outward_normal(),
                        mat: material,
                        uv: Uv { u: face.k, v: face.k },
                    },
                ),
            )->0.outward_normal.component(k_axis) == (if at_minimum(i) {
                Scalar { bits: (ONE_BITS + SIGN_BIT) as u32 }
            } else {
                Scalar { bits: ONE_BITS }
            })
        }),
{
}

/// The six rectangles that bound the box with the corners `min` and `max`.
pub fn create_box(min: Vec3, max: Vec3, material: Material) -> (faces: Vec<Object>)
    ensures
        is_box(faces@, min, max, material),
{
    let mut faces: Vec<Object> = Vec::new();
    faces.push(Plane::new(PlaneType::ZX, min.z, max.z, min.x, max.x, min.y, material));
    faces.push(Plane::new(PlaneType::XY, min.x, max.x, min.y, max.y, max.z, material));
    faces.push(Plane::new(PlaneType::XY, min.x, max.x, min.y, max.y, min.z, material));
    faces.push(Plane::new(PlaneType::ZX, min.z, max.z, min.x, max.x, max.y, material));
    faces.push(Plane::new(PlaneType::YZ, min.y, max.y, min.z, max.z, max.x, material));
    faces.push(Plane::new(PlaneType::YZ, min.y, max.y, min.z, max.z, min.x, material));
    faces
}

/// Whether the face at place `i` of a box lies at the box's minimum corner:
/// the bottom, the back and the left side do.
pub open spec fn at_minimum(i: int) -> bool {
    i == 0 || i == 2 || i == 5
}

/// The hit of a ray with the face at place `i` of a box, with its outward
/// normal turned away from the inside of the box: a rectangle's outward
/// normal points towards growing coordinates, which for a face at the
/// minimum corner is into the box, so it is turned round there.
pub open spec fn turned_outward(i: int, hit: Option<Intersection>) -> Option<Intersection> {
    match hit {
        Some(h) => if at_minimum(i) {
            Some(
                Intersection {
                    distance: h.distance,
                    point: h.point,
                    normal: h.normal,
                    outward_normal: h.outward_normal.spec_neg(),
                    mat: h.mat,
                    uv: h.uv,
                },
            )
        } else {
            hit
        },
        None => None,
    }
}

/// A table of the hits of a ray with the faces of a box, each with its
/// outward normal turned away from the inside of the box.
pub open spec fn faces_outward(hits: Seq<Option<Intersection>>) -> Seq<Option<Intersection>> {
    Seq::new(hits.len(), |i: int| turned_outward(i, hits[i]))
}

impl BoxObj {
    /// The nearest hit of a ray with the six faces. The outward normal of the
    /// hit points away from the inside of the box.
    pub fn intersects<L: Fn(&Object) -> Option<Intersection>>(&self, intersect: &L) -> (r: Option<
        Intersection,
    >)
        requires
            forall|i: int| 0 <= i < self.faces.len() ==> call_requires(intersect, (&self.faces[i],)),
        ensures
            exists|hits: Seq<Option<Intersection>>| #[trigger]
                outcomes_of(self.faces@, intersect, hits) && r == nearest_of(faces_outward(hits)),
    {
        let mut kept: Option<Intersection> = None;
        let ghost mut hits: Seq<Option<Intersection>> = Seq::empty();
        let mut i: usize = 0;
        assert(faces_outward(hits) =~= Seq::empty());
        while i < self.faces.len()
            invariant
                i <= self.faces.len(),
                forall|j: int|
                    0 <= j < self.faces.len() ==> call_requires(intersect, (&self.faces[j],)),
                hits.len() == i,
                forall|j: int|
                    0 <= j < i ==> call_ensures(intersect, (&self.faces[j],), #[trigger] hits[j]),
                kept == nearest_of(faces_outward(hits)),
            decreases self.faces.len() - i,
        {
            let found = intersect(&self.faces[i]);
            let next = match found {
                Some(h) => {
                    if i == 0 || i == 2 || i == 5 {
                        Some(
                            Intersection::new(
                                h.distance,
                                h.point,
                                h.normal,
                                h.outward_normal.neg(),
                                &h.mat,
                                h.uv,
                            ),
                        )
                    } else {
                        found
                    }
                },
                None => None,
            };
            proof {
                assert(faces_outward(hits.push(found)).drop_last() =~= faces_outward(hits));
                assert(faces_outward(hits.push(found)).last() == next);
                hits = hits.push(found);
            }
            kept = select_first(kept, next);
            i += 1;
        }
        assert(outcomes_of(self.faces@, intersect, hits));
        kept
    }

    /// The bounding box: the box itself.
    pub fn bounding_box(&self) -> (r: Option<Aabb>)
        ensures
            r == Some(Aabb { min: self.min, max: self.max }),
    {
        Some(Aabb { min: self.min, max: self.max })
    }

    pub fn new(min: Vec3, max: Vec3, material: Material) -> (o: Object)
        ensures
            o is Box,
            o->Box_0.min == min,
            o->Box_0.max == max,
            is_box(o->Box_0.faces@, min, max, material),
    {
        Object::Box(BoxObj { min, max, faces: create_box(min, max, material) })
    }
}

impl Triangle {
    /// The smallest box around the three corners.
    pub open spec fn spec_bounds(self) -> Aabb {
        Aabb {
            min: self.v0.spec_min(self.v1.spec_min(self.v2)),
            max: self.v0.spec_max(self.v1.spec_max(self.v2)),
        }
    }

    /// Whether the numbers that the caller's arithmetic found for a ray and
    /// the triangle describe a hit within the window `t_min..t_max`: the
    /// determinant `det` is not near zero, the barycentric coordinates `u`
    /// and `v` and their sum `u_plus_v` lie between 0 and 1, and the ray
    /// parameter `t` lies in the window. Where one of these is no number,
    /// there is no hit.
    pub open spec fn spec_accepts(
        det: Scalar,
        u: Scalar,
        v: Scalar,
        u_plus_v: Scalar,
        t: Scalar,
        t_min: Scalar,
        t_max: Scalar,
    ) -> bool {
        let zero = Scalar { bits: 0 };
        let one = Scalar { bits: ONE_BITS };
        &&& (Scalar { bits: PARALLEL_BITS }).spec_le(det.spec_abs())
        &&& u.spec_within(zero, one)
        &&& zero.spec_le(v) && u_plus_v.spec_le(one)
        &&& t.spec_within(t_min, t_max)
    }

    /// The hit of a ray with the triangle within the window `t_min..t_max`,
    /// given what the arithmetic found for the ray and the triangle.
    pub open spec fn spec_intersects(self, found: TriangleSolution, t_min: Scalar, t_max: Scalar) -> Option<
        Intersection,
    > {
        if Self::spec_accepts(found.det, found.u, found.v, found.u_plus_v, found.t, t_min, t_max) {
            Some(
                Intersection {
                    distance: found.t,
                    point: found.point,
                    normal: self.normal,
                    outward_normal: self.normal,
                    mat: self.material,
                    uv: Uv { u: found.u, v: found.v },
                },
            )
        } else {
            None
        }
    }

    pub fn new_with_normal(v0: Vec3, v1: Vec3, v2: Vec3, normal: Vec3, material: Material) -> (t:
        Triangle)
        ensures
            t == (Triangle { v0, v1, v2, normal, material }),
    {
        Triangle { v0, v1, v2, normal, material }
    }

    /// The hit of a ray with the triangle, from what the caller's arithmetic
    /// found: the determinant, the barycentric coordinates and their sum,
    /// the ray parameter and the point at that parameter.
    pub fn intersects(
        &self,
        det: Scalar,
        u: Scalar,
        v: Scalar,
        u_plus_v: Scalar,
        t: Scalar,
        point: Vec3,
        t_min: Scalar,
        t_max: Scalar,
    ) -> (r: Option<Intersection>)
        ensures
            r == self.spec_intersects(
                TriangleSolution { det, u, v, u_plus_v, t, point },
                t_min,
                t_max,
            ),
    {
        if !Scalar::from_bits(PARALLEL_BITS).le(det.abs()) {
            return None;
        }
        if !u.within(Scalar::zero(), Scalar::one()) {
            return None;
        }
        if !Scalar::zero().le(v) || !u_plus_v.le(Scalar::one()) {
            return None;
        }
        if !t.within(t_min, t_max) {
            return None;
        }
        Some(
            Intersection {
                distance: t,
                point,
                normal: self.normal,
                outward_normal: self.outward_normal(),
                mat: self.material,
                uv: Uv { u, v },
            },
        )
    }

    /// The shading normal: the normal of the face.
    pub fn surface_normal(&self) -> (n: Vec3)
        ensures
            n == self.normal,
    {
        self.normal
    }

    /// The outward normal: the normal of the face.
    pub fn outward_normal(&self) -> (n: Vec3)
        ensures
            n == self.normal,
    {
        self.normal
    }

    /// The surface coordinates of any point, which are taken to be zero.
    pub fn surface_uv(&self) -> (uv: Uv)
        ensures
            uv.u.bits == 0 && uv.v.bits == 0,
    {
        Uv { u: Scalar::zero(), v: Scalar::zero() }
    }

    pub(crate) fn bounds(&self) -> (b: Aabb)
        ensures
            b == self.spec_bounds(),
    {
        Aabb {
            min: Vec3::new(
                self.v0.x.min(self.v1.x.min(self.v2.x)),
                self.v0.y.min(self.v1.y.min(self.v2.y)),
                self.v0.z.min(self.v1.z.min(self.v2.z)),
            ),
            max: Vec3::new(
                self.v0.x.max(self.v1.x.max(self.v2.x)),
                self.v0.y.max(self.v1.y.max(self.v2.y)),
                self.v0.z.max(self.v1.z.max(self.v2.z)),
            ),
        }
    }

    /// The bounding box: the smallest box around the three corners.
    pub fn bounding_box(&self) -> (r: Option<Aabb>)
        ensures
            r == Some(self.spec_bounds()),
    {
        Some(self.bounds())
    }
}

/// The box of a triangle whose corners are numbers is a box, and holds the
/// three corners.
pub proof fn lemma_triangle_bounds_hold_corners(t: Triangle)
    requires
        t.v0.is_numeric(),
        t.v1.is_numeric(),
        t.v2.is_numeric(),
    ensures
        t.spec_bounds().wf(),
        t.spec_bounds().contains(Aabb { min: t.v0, max: t.v0 }),
        t.spec_bounds().contains(Aabb { min: t.v1, max: t.v1 }),
        t.spec_bounds().contains(Aabb { min: t.v2, max: t.v2 }),
{
}

impl ConstantMedium {
    /// The part of the stretch from `entry` to `exit` that lies in the
    /// window `t_min..t_max`, if that part is not empty.
    pub open spec fn spec_span(entry: Scalar, exit: Scalar, t_min: Scalar, t_max: Scalar) -> Option<
        (Scalar, Scalar),
    > {
        let from = if entry.spec_lt(t_min) {
            t_min
        } else {
            entry
        };
        let to = if t_max.spec_lt(exit) {
            t_max
        } else {
            exit
        };
        if from.spec_lt(to) {
            Some((from, to))
        } else {
            None
        }
    }

    /// A medium of the given density within a boundary. A hit inside a medium
    /// has no surface, so the material that is given to such hits must be one
    /// that scatters without regard to a normal: an isotropic one.
    pub fn new(boundary: Bvh, density: Scalar, phase_function: Material) -> (o: Object)
        requires
            phase_function is Isotropic,
        ensures
            o == Object::ConstantMedium(ConstantMedium { boundary, density, phase_function }),
    {
        Object::ConstantMedium(ConstantMedium { boundary, density, phase_function })
    }

    /// Holds the stretch of a ray inside the boundary, from the parameter
    /// `entry` to the parameter `exit`, to the window `t_min..t_max`.
    pub fn span(entry: Scalar, exit: Scalar, t_min: Scalar, t_max: Scalar) -> (r: Option<
        (Scalar, Scalar),
    >)
        ensures
            r == Self::spec_span(entry, exit, t_min, t_max),
    {
        let mut from = entry;
        let mut to = exit;
        if from.lt(t_min) {
            from = t_min;
        }
        if to.gt(t_max) {
            to = t_max;
        }
        if from.lt(to) {
            Some((from, to))
        } else {
            None
        }
    }

    /// The hit of a ray inside the medium, if the ray scatters before it
    /// leaves: it does where the distance `scatter_distance` that was drawn
    /// for it is smaller than `distance_inside`, the length of its way
    /// through the medium. The hit lies at the parameter `distance`, in
    /// `point`; its shading normal is the x axis, whatever the medium; its
    /// outward normal and surface coordinates are those of `exit`, the hit
    /// with which the ray leaves the boundary; its material is the phase
    /// function.
    pub fn scatter_inside(
        &self,
        exit: &Intersection,
        scatter_distance: Scalar,
        distance_inside: Scalar,
        distance: Scalar,
        point: Vec3,
    ) -> (r: Option<Intersection>)
        ensures
            r == if scatter_distance.spec_lt(distance_inside) {
                Some(
                    Intersection {
                        distance,
                        point,
                        normal: Vec3 {
                            x: Scalar { bits: ONE_BITS },
                            y: Scalar { bits: 0 },
                            z: Scalar { bits: 0 },
                        },
                        outward_normal: exit.outward_normal,
                        mat: self.phase_function,
                        uv: exit.uv,
                    },
                )
            } else {
                None
            },
    {
        if scatter_distance.lt(distance_inside) {
            Some(
                Intersection {
                    distance,
                    point,
                    normal: Vec3::new(Scalar::one(), Scalar::zero(), Scalar::zero()),
                    outward_normal: exit.outward_normal,
                    mat: self.phase_function,
                    uv: exit.uv,
                },
            )
        } else {
            None
        }
    }

    /// What `scatter_inside` answers.
    pub open spec fn spec_scatter_inside(self, exit: Intersection, way: Passage) -> Option<
        Intersection,
    > {
        if way.scatter_distance.spec_lt(way.distance_inside) {
            Some(
                Intersection {
                    distance: way.distance,
                    point: way.point,
                    normal: Vec3 {
                        x: Scalar { bits: ONE_BITS },
                        y: Scalar { bits: 0 },
                        z: Scalar { bits: 0 },
                    },
                    outward_normal: exit.outward_normal,
                    mat: self.phase_function,
                    uv: exit.uv,
                },
            )
        } else {
            None
        }
    }

    /// Whether `r` can be the hit of a ray inside the medium within the
    /// window `t_min..t_max`.
    ///
    /// The ray must meet the boundary twice: once anywhere along its line,
    /// and once more behind that. `boundary` relates a window to the hits of
    /// the ray with the boundary within it, and `nudge` gives the parameter
    /// just behind one. The stretch between the two hits is held to the
    /// window; if nothing is left of it there is no hit. Else `pass` draws
    /// the way of the ray through the medium, and the ray is hit where it
    /// scatters before it leaves.
    pub open spec fn intersects_outcome<
        N: Fn(Scalar) -> Scalar,
        P: Fn(&ConstantMedium, &Ray, Scalar, Scalar) -> Passage,
    >(
        self,
        ray: Ray,
        t_min: Scalar,
        t_max: Scalar,
        boundary: spec_fn(Scalar, Scalar, Option<Intersection>) -> bool,
        nudge: &N,
        pass: &P,
        r: Option<Intersection>,
    ) -> bool {
        let lowest = Scalar { bits: (MAX_BITS + SIGN_BIT) as u32 };
        let highest = Scalar { bits: MAX_BITS };
        exists|first: Option<Intersection>| #[trigger]
            boundary(lowest, highest, first) && match first {
                None => r is None,
                Some(hit1) => exists|behind: Scalar, second: Option<Intersection>|
                    #![trigger boundary(behind, highest, second)]
                    call_ensures(nudge, (hit1.distance,), behind) && boundary(
                        behind,
                        highest,
                        second,
                    ) && match second {
                        None => r is None,
                        Some(hit2) => match Self::spec_span(
                            hit1.distance,
                            hit2.distance,
                            t_min,
                            t_max,
                        ) {
                            None => r is None,
                            Some(stretch) => exists|way: Passage| #[trigger]
                                call_ensures(pass, (&self, &ray, stretch.0, stretch.1), way) && r
                                    == self.spec_scatter_inside(hit2, way),
                        },
                    },
            }
    }

    /// The hit of a ray inside the medium within the window `t_min..t_max`,
    /// if the ray scatters on its way through. `boundary`, `nudge` and
    /// `pass` do the arithmetic and draw the random number.
    pub fn intersects<
        H: Fn(&Ray, Scalar, Scalar) -> Option<Intersection>,
        N: Fn(Scalar) -> Scalar,
        P: Fn(&ConstantMedium, &Ray, Scalar, Scalar) -> Passage,
    >(
        &self,
        ray: &Ray,
        t_min: Scalar,
        t_max: Scalar,
        boundary: &H,
        nudge: &N,
        pass: &P,
    ) -> (r: Option<Intersection>)
        requires
            forall|lo: Scalar, hi: Scalar| call_requires(boundary, (ray, lo, hi)),
            forall|t: Scalar| call_requires(nudge, (t,)),
            forall|m: &ConstantMedium, r: &Ray, lo: Scalar, hi: Scalar|
                call_requires(pass, (m, r, lo, hi)),
        ensures
            self.intersects_outcome(
                *ray,
                t_min,
                t_max,
                answers_of_boundary(boundary, *ray),
                nudge,
                pass,
                r,
            ),
    {
        let lowest = Scalar::from_bits(MAX_BITS).neg();
        let highest = Scalar::from_bits(MAX_BITS);
        let first = boundary(ray, lowest, highest);
        assert(lowest == Scalar { bits: (MAX_BITS + SIGN_BIT) as u32 });
        assert(highest == Scalar { bits: MAX_BITS });
        assert(answers_of_boundary(boundary, *ray)(lowest, highest, first));
        match first {
            None => None,
            Some(hit1) => {
                let behind = nudge(hit1.distance);
                let second = boundary(ray, behind, highest);
                assert(answers_of_boundary(boundary, *ray)(behind, highest, second));
                match second {
                    None => None,
                    Some(hit2) => {
                        match ConstantMedium::span(hit1.distance, hit2.distance, t_min, t_max) {
                            None => None,
                            Some(stretch) => {
                                let way = pass(self, ray, stretch.0, stretch.1);
                                self.scatter_inside(
                                    &hit2,
                                    way.scatter_distance,
                                    way.distance_inside,
                                    way.distance,
                                    way.point,
                                )
                            },
                        }
                    },
                }
            },
        }
    }

    /// The outward normal of a medium, which has none: zero.
    pub fn outward_normal(&self) -> (n: Vec3)
        ensures
            n.x.bits == 0 && n.y.bits == 0 && n.z.bits == 0,
    {
        Vec3::zero()
    }

    /// The shading normal of a medium, which has none: zero.
    pub fn surface_normal(&self) -> (n: Vec3)
        ensures
            n.x.bits == 0 && n.y.bits == 0 && n.z.bits == 0,
    {
        Vec3::zero()
    }

    /// The bounding box: that of the boundary.
    pub fn bounding_box(&self) -> (r: Option<Aabb>)
        ensures
            r == Some(self.boundary.bbox),
    {
        Some(self.boundary.bbox)
    }

    /// The surface coordinates of any point, which are taken to be zero.
    pub fn surface_uv(&self) -> (uv: Uv)
        ensures
            uv.u.bits == 0 && uv.v.bits == 0,
    {
        Uv { u: Scalar::zero(), v: Scalar::zero() }
    }
}

/// What a test of a boundary can answer for one ray: the relation between a
/// window and each outcome that a call of `boundary` on the ray and the
/// window can end with.
pub open spec fn answers_of_boundary<H: Fn(&Ray, Scalar, Scalar) -> Option<Intersection>>(
    boundary: &H,
    ray: Ray,
) -> spec_fn(Scalar, Scalar, Option<Intersection>) -> bool {
    |lo: Scalar, hi: Scalar, hit: Option<Intersection>| call_ensures(boundary, (&ray, lo, hi), hit)
}

/// A hit that a ray can have inside a medium it still can have when the
/// test of the boundary is allowed more answers.
pub proof fn lemma_medium_outcome_is_monotone<
    N: Fn(Scalar) -> Scalar,
    P: Fn(&ConstantMedium, &Ray, Scalar, Scalar) -> Passage,
>(
    medium: ConstantMedium,
    ray: Ray,
    t_min: Scalar,
    t_max: Scalar,
    boundary: spec_fn(Scalar, Scalar, Option<Intersection>) -> bool,
    wider: spec_fn(Scalar, Scalar, Option<Intersection>) -> bool,
    nudge: &N,
    pass: &P,
    r: Option<Intersection>,
)
    requires
        medium.intersects_outcome(ray, t_min, t_max, boundary, nudge, pass, r),
        forall|lo: Scalar, hi: Scalar, h: Option<Intersection>| #[trigger]
            boundary(lo, hi, h) ==> wider(lo, hi, h),
    ensures
        medium.intersects_outcome(ray, t_min, t_max, wider, nudge, pass, r),
{
    let lowest = Scalar { bits: (MAX_BITS + SIGN_BIT) as u32 };
    let highest = Scalar { bits: MAX_BITS };
    let first = choose|first: Option<Intersection>| #[trigger]
        boundary(lowest, highest, first) && match first {
            None => r is None,
            Some(hit1) => exists|behind: Scalar, second: Option<Intersection>|
                #![trigger boundary(behind, highest, second)]
                call_ensures(nudge, (hit1.distance,), behind) && boundary(behind, highest, second)
                    && match second {
                    None => r is None,
                    Some(hit2) => match ConstantMedium::spec_span(
                        hit1.distance,
                        hit2.distance,
                        t_min,
                        t_max,
                    ) {
                        None => r is None,
                        Some(stretch) => exists|way: Passage| #[trigger]
                            call_ensures(pass, (&medium, &ray, stretch.0, stretch.1), way) && r
                                == medium.spec_scatter_inside(hit2, way),
                    },
                },
        };
    assert(wider(lowest, highest, first));
    if let Some(hit1) = first {
        let (behind, second) = choose|behind: Scalar, second: Option<Intersection>|
            #![trigger boundary(behind, highest, second)]
            call_ensures(nudge, (hit1.distance,), behind) && boundary(behind, highest, second)
                && match second {
                None => r is None,
                Some(hit2) => match ConstantMedium::spec_span(
                    hit1.distance,
                    hit2.distance,
                    t_min,
                    t_max,
                ) {
                    None => r is None,
                    Some(stretch) => exists|way: Passage| #[trigger]
                        call_ensures(pass, (&medium, &ray, stretch.0, stretch.1), way) && r
                            == medium.spec_scatter_inside(hit2, way),
                },
            };
        assert(wider(behind, highest, second));
    }
}

/// What a primitive test can answer for the primitives of a list, by their
/// places in the list.
pub open spec fn answers_of_intersect<L: Fn(&Object) -> Option<Intersection>>(
    objects: Seq<Object>,
    intersect: &L,
) -> spec_fn(usize, Option<Intersection>) -> bool {
    |object: usize, hit: Option<Intersection>|
        object < objects.len() && call_ensures(intersect, (&objects[object as int],), hit)
}

impl Bvh {
    /// The invariant of a hierarchy: it has a primitive, a box for each
    /// primitive, a tree over these boxes, and the box of the tree's root as
    /// its own.
    pub open spec fn wf(&self) -> bool {
        &&& self.objects.len() >= 1
        &&& self.boxes.len() == self.objects.len()
        &&& self.tree.describes(self.boxes@)
        &&& self.bbox == self.tree.nodes()[self.tree.root()].aabb()
    }

    /// Builds the hierarchy over `objects`. The bounding box of each
    /// primitive is found with `spread`, which gives the two numbers on
    /// either side of a centre at a distance.
    pub fn new<S: Fn(Scalar, Scalar) -> (Scalar, Scalar)>(objects: Vec<Object>, spread: &S) -> (r:
        Bvh)
        requires
            objects.len() >= 1,
            forall|c: Scalar, h: Scalar| call_requires(spread, (c, h)),
        ensures
            r.wf(),
            r.objects@ == objects@,
            forall|i: int|
                0 <= i < objects.len() ==> (#[trigger] objects[i]).bounds_outcome(
                    spread,
                    r.boxes[i],
                ),
    {
        let mut boxes: Vec<Aabb> = Vec::new();
        let mut i: usize = 0;
        while i < objects.len()
            invariant
                i <= objects.len(),
                boxes.len() == i,
                forall|c: Scalar, h: Scalar| call_requires(spread, (c, h)),
                forall|j: int|
                    0 <= j < i ==> (#[trigger] objects[j]).bounds_outcome(spread, boxes[j]),
            decreases objects.len() - i,
        {
            let b = objects[i].bounds(spread);
            boxes.push(b);
            i += 1;
        }
        let tree = BvhTree::new(&boxes);
        let bbox = tree.bounding_box();
        Bvh { objects, boxes, tree, bbox }
    }

    /// The nearest hit of a ray in the hierarchy. The ray is given by two
    /// tests: `box_test` says whether it passes through a box, `intersect`
    /// gives its hit with a primitive.
    pub fn intersects<B: Fn(Aabb) -> bool, L: Fn(&Object) -> Option<Intersection>>(
        &self,
        box_test: &B,
        intersect: &L,
    ) -> (r: Option<Intersection>)
        requires
            self.wf(),
            forall|b: Aabb| call_requires(box_test, (b,)),
            forall|i: int|
                0 <= i < self.objects.len() ==> call_requires(intersect, (&self.objects[i],)),
        ensures
            outcome(
                self.tree.nodes(),
                self.tree.root(),
                answers_of_box_test(box_test),
                answers_of_intersect(self.objects@, intersect),
                r,
            ),
    {
        let objects = &self.objects;
        let leaf_test = |object: usize| -> (hit: Option<Intersection>)
            requires
                object < objects.len(),
            ensures
                call_ensures(intersect, (&objects[object as int],), hit),
            { intersect(&objects[object]) };
        proof {
            self.tree.lemma_arena_is_bounded();
            let nodes = self.tree.nodes();
            let listed = indexed(self.boxes@);
            assert forall|id: int| 0 <= id < nodes.len() implies match #[trigger] nodes[id] {
                BvhNode::Leaf(e) => call_requires(leaf_test, (e.object,)),
                BvhNode::Branch(b, _, _) => call_requires(box_test, (b,)),
            } by {
                if nodes[id] is Leaf {
                    let e = nodes[id]->Leaf_0;
                    assert(listed.contains(e));
                    let k = choose|k: int| 0 <= k < listed.len() && listed[k] == e;
                    assert(e.object == k);
                }
            }
        }
        let found = self.tree.hit(box_test, &leaf_test);
        proof {
            lemma_outcome_is_monotone(
                self.tree.nodes(),
                self.tree.root(),
                answers_of_box_test(box_test),
                answers_of_leaf_test(&leaf_test),
                answers_of_box_test(box_test),
                answers_of_intersect(self.objects@, intersect),
                found,
            );
        }
        found
    }
}

impl BigObject {
    /// The nearest hit of a ray with the primitives of the hierarchy.
    pub fn intersects<B: Fn(Aabb) -> bool, L: Fn(&Object) -> Option<Intersection>>(
        &self,
        box_test: &B,
        intersect: &L,
    ) -> (r: Option<Intersection>)
        requires
            self.objects.wf(),
            forall|b: Aabb| call_requires(box_test, (b,)),
            forall|i: int|
                0 <= i < self.objects.objects.len() ==> call_requires(
                    intersect,
                    (&self.objects.objects[i],),
                ),
        ensures
            outcome(
                self.objects.tree.nodes(),
                self.objects.tree.root(),
                answers_of_box_test(box_test),
                answers_of_intersect(self.objects.objects@, intersect),
                r,
            ),
    {
        self.objects.intersects(box_test, intersect)
    }

    /// The bounding box: that of the hierarchy.
    pub fn bounding_box(&self) -> (r: Option<Aabb>)
        ensures
            r == Some(self.objects.bbox),
    {
        Some(self.objects.bbox)
    }

    /// Makes one primitive of a list of primitives.
    pub fn new<S: Fn(Scalar, Scalar) -> (Scalar, Scalar)>(objects: Vec<Object>, spread: &S) -> (o:
        Object)
        requires
            objects.len() >= 1,
            forall|c: Scalar, h: Scalar| call_requires(spread, (c, h)),
        ensures
            o is BigObject,
            o->BigObject_0.objects.wf(),
            o->BigObject_0.objects.objects@ == objects@,
            forall|i: int|
                0 <= i < objects.len() ==> (#[trigger] objects[i]).bounds_outcome(
                    spread,
                    o->BigObject_0.objects.boxes[i],
                ),
    {
        Object::BigObject(BigObject { objects: Bvh::new(objects, spread) })
    }
}

/// Builds the hierarchy over a list of primitives.
pub fn to_bvh<S: Fn(Scalar, Scalar) -> (Scalar, Scalar)>(objects: Vec<Object>, spread: &S) -> (r:
    Bvh)
    requires
        objects.len() >= 1,
        forall|c: Scalar, h: Scalar| call_requires(spread, (c, h)),
    ensures
        r.wf(),
        r.objects@ == objects@,
        forall|i: int|
            0 <= i < objects.len() ==> (#[trigger] objects[i]).bounds_outcome(spread, r.boxes[i]),
{
    Bvh::new(objects, spread)
}

impl Object {
    /// Whether `b` can be the bounding box of the primitive under `spread`.
    /// The boxes of a sphere and of a rectangle take arithmetic, which
    /// `spread` does; the box of a box is the box, that of a triangle the
    /// smallest box around its corners, and that of a medium or a hierarchy
    /// the box of its tree.
    pub open spec fn bounds_outcome<S: Fn(Scalar, Scalar) -> (Scalar, Scalar)>(
        self,
        spread: &S,
        b: Aabb,
    ) -> bool {
        match self {
            Object::Sphere(s) => s.bounds_outcome(spread, b),
            Object::Plane(p) => p.bounds_outcome(spread, b),
            Object::Box(o) => b == (Aabb { min: o.min, max: o.max }),
            Object::ConstantMedium(m) => b == m.boundary.bbox,
            Object::Triangle(t) => b == t.spec_bounds(),
            Object::BigObject(o) => b == o.objects.bbox,
        }
    }

    /// The shading normal at a point, as each kind of primitive defines it
    /// apart from any ray: the normal of a triangle's face, and zero for a
    /// box, a medium and a hierarchy. `None` for a sphere and a rectangle,
    /// whose normals depend on the point or the ray.
    pub open spec fn fixed_normal(self) -> Option<Vec3> {
        let zero = Vec3 { x: Scalar { bits: 0 }, y: Scalar { bits: 0 }, z: Scalar { bits: 0 } };
        match self {
            Object::Sphere(_) => None,
            Object::Plane(_) => None,
            Object::Box(_) => Some(zero),
            Object::ConstantMedium(_) => Some(zero),
            Object::Triangle(t) => Some(t.normal),
            Object::BigObject(_) => Some(zero),
        }
    }

    fn bounds<S: Fn(Scalar, Scalar) -> (Scalar, Scalar)>(&self, spread: &S) -> (b: Aabb)
        requires
            forall|c: Scalar, h: Scalar| call_requires(spread, (c, h)),
        ensures
            self.bounds_outcome(spread, b),
    {
        match self {
            Object::Sphere(s) => s.bounds(spread),
            Object::Plane(p) => p.bounds(spread),
            Object::Box(o) => Aabb { min: o.min, max: o.max },
            Object::ConstantMedium(m) => m.boundary.bbox,
            Object::Triangle(t) => t.bounds(),
            Object::BigObject(o) => o.objects.bbox,
        }
    }

    /// The bounding box of the primitive. Every kind of primitive has one.
    pub fn bounding_box<S: Fn(Scalar, Scalar) -> (Scalar, Scalar)>(&self, spread: &S) -> (r:
        Option<Aabb>)
        requires
            forall|c: Scalar, h: Scalar| call_requires(spread, (c, h)),
        ensures
            r is Some,
            self.bounds_outcome(spread, r->0),
    {
        Some(self.bounds(spread))
    }

    /// The shading normal at `point` for `ray`. That of a sphere takes
    /// arithmetic, which `curved` does.
    pub fn surface_normal<N: Fn(&Sphere, &Vec3) -> Vec3>(
        &self,
        point: &Vec3,
        ray: &Ray,
        curved: &N,
    ) -> (n: Vec3)
        requires
            self is Sphere ==> call_requires(curved, (&self->Sphere_0, point)),
        ensures
            match *self {
                Object::Sphere(s) => call_ensures(curved, (&s, point), n),
                Object::Plane(p) => n == p.spec_surface_normal(*ray),
                _ => Some(n) == self.fixed_normal(),
            },
    {
        match self {
            Object::Sphere(s) => curved(s, point),
            Object::Plane(p) => p.surface_normal(ray),
            Object::Box(_) => Vec3::zero(),
            Object::ConstantMedium(m) => m.surface_normal(),
            Object::Triangle(t) => t.surface_normal(),
            Object::BigObject(_) => Vec3::zero(),
        }
    }

    /// The outward normal at `point`. That of a sphere takes arithmetic,
    /// which `curved` does; that of a rectangle lies along its fixed axis.
    pub fn outward_normal<N: Fn(&Sphere, &Vec3) -> Vec3>(&self, point: &Vec3, curved: &N) -> (n:
        Vec3)
        requires
            self is Sphere ==> call_requires(curved, (&self->Sphere_0, point)),
        ensures
            match *self {
                Object::Sphere(s) => call_ensures(curved, (&s, point), n),
                Object::Plane(p) => n == p.spec_outward_normal(),
                _ => Some(n) == self.fixed_normal(),
            },
    {
        match self {
            Object::Sphere(s) => curved(s, point),
            Object::Plane(p) => p.outward_normal(),
            Object::Box(_) => Vec3::zero(),
            Object::ConstantMedium(m) => m.outward_normal(),
            Object::Triangle(t) => t.outward_normal(),
            Object::BigObject(_) => Vec3::zero(),
        }
    }

    /// The surface coordinates of `point`. Those on a sphere and on a
    /// rectangle take arithmetic, which `measured` does; all others are
    /// taken to be zero.
    pub fn surface_uv<M: Fn(&Object, &Vec3) -> Uv>(&self, point: &Vec3, measured: &M) -> (uv: Uv)
        requires
            self is Sphere || self is Plane ==> call_requires(measured, (self, point)),
        ensures
            if self is Sphere || self is Plane {
                call_ensures(measured, (self, point), uv)
            } else {
                uv.u.bits == 0 && uv.v.bits == 0
            },
    {
        match self {
            Object::Sphere(_) => measured(self, point),
            Object::Plane(_) => measured(self, point),
            Object::Box(_) => Uv { u: Scalar::zero(), v: Scalar::zero() },
            Object::ConstantMedium(m) => m.surface_uv(),
            Object::Triangle(t) => t.surface_uv(),
            Object::BigObject(_) => Uv { u: Scalar::zero(), v: Scalar::zero() },
        }
    }
}

} // verus!
