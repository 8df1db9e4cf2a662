//! The intersection protocol: the hit of a ray with any primitive, down
//! through boxes, media and hierarchies, with the arithmetic handed in.

use vstd::prelude::*;
use crate::aabb::{Aabb, Window};
use crate::bvh::{
    answers_of_box_test, lemma_outcome_is_monotone, outcome,
};
use crate::intersection::Intersection;
use crate::objects::{
    answers_of_boundary, answers_of_intersect, faces_outward, lemma_medium_outcome_is_monotone, Bvh,
    ConstantMedium, Object, Passage, Plane, PlaneCrossing, Roots, Sphere, Surface, Triangle,
    TriangleSolution,
};
use crate::ray::{nearest_of, outcomes_of, Ray};
use crate::scalar::Scalar;

verus! {

/// The arithmetic of the primitives, as the caller provides it.
///
/// `slab` finds the parameter at which a ray with a given origin and
/// direction on an axis reaches a given coordinate. `solve` solves the
/// quadratic of a ray and a sphere, and `surface` describes the sphere where
/// the ray meets it. `cross` finds where a ray crosses the plane of a
/// rectangle. `resolve` finds the determinant, the barycentric coordinates
/// and the parameter of a ray and a triangle. `nudge` gives the parameter
/// just behind another, and `pass` draws the way of a ray through a medium.
pub struct Arithmetic<SL, SQ, SF, PC, TS, MN, MP> {
    pub slab: SL,
    pub solve: SQ,
    pub surface: SF,
    pub cross: PC,
    pub resolve: TS,
    pub nudge: MN,
    pub pass: MP,
}

/// What the slab test can answer for one ray and one window: the relation
/// between a box and each verdict that the test can give on it, the
/// crossings being found with `slab`.
pub open spec fn box_verdicts<SL: Fn(Scalar, Scalar, Scalar) -> Scalar>(
    slab: &SL,
    ray: Ray,
    lo: Scalar,
    hi: Scalar,
) -> spec_fn(Aabb, bool) -> bool {
    |b: Aabb, verdict: bool|
        exists|x: crate::aabb::Crossing, y: crate::aabb::Crossing, z: crate::aabb::Crossing|
            #[trigger] b.crossings_of(ray, slab, x, y, z) && verdict == Aabb::spec_hit(
                x,
                y,
                z,
                Window { lo, hi },
            )
}

impl<
    SL: Fn(Scalar, Scalar, Scalar) -> Scalar,
    SQ: Fn(&Sphere, &Ray) -> Roots,
    SF: Fn(&Sphere, &Ray, Scalar) -> Surface,
    PC: Fn(&Plane, &Ray) -> PlaneCrossing,
    TS: Fn(&Triangle, &Ray) -> TriangleSolution,
    MN: Fn(Scalar) -> Scalar,
    MP: Fn(&ConstantMedium, &Ray, Scalar, Scalar) -> Passage,
> Arithmetic<SL, SQ, SF, PC, TS, MN, MP> {
    /// Whether every part of the arithmetic may be called on everything.
    pub open spec fn usable(&self) -> bool {
        &&& forall|bound: Scalar, origin: Scalar, direction: Scalar|
            call_requires(self.slab, (bound, origin, direction))
        &&& forall|s: &Sphere, r: &Ray| call_requires(self.solve, (s, r))
        &&& forall|s: &Sphere, r: &Ray, t: Scalar| call_requires(self.surface, (s, r, t))
        &&& forall|p: &Plane, r: &Ray| call_requires(self.cross, (p, r))
        &&& forall|t: &Triangle, r: &Ray| call_requires(self.resolve, (t, r))
        &&& forall|t: Scalar| call_requires(self.nudge, (t,))
        &&& forall|m: &ConstantMedium, r: &Ray, lo: Scalar, hi: Scalar|
            call_requires(self.pass, (m, r, lo, hi))
    }
}

impl Object {
    /// Whether every hierarchy within the primitive, at any depth, is sound.
    pub open spec fn sound(self) -> bool
        decreases self,
    {
        match self {
            Object::Box(b) => forall|i: int|
                0 <= i < b.faces.len() ==> (#[trigger] b.faces[i]).sound(),
            Object::ConstantMedium(m) => m.boundary.wf() && forall|i: int|
                0 <= i < m.boundary.objects.len() ==> (#[trigger] m.boundary.objects[i]).sound(),
            Object::BigObject(o) => o.objects.wf() && forall|i: int|
                0 <= i < o.objects.objects.len() ==> (#[trigger] o.objects.objects[i]).sound(),
            _ => true,
        }
    }

    /// Whether `r` can be the hit of a ray with the primitive within the
    /// window `t_min..t_max`, under the arithmetic `math`.
    ///
    /// A sphere, a rectangle and a triangle answer as their kinds say. A box
    /// answers with what a scan of its faces keeps, the outward normal turned
    /// away from the inside of the box. A hierarchy answers with
    /// an answer of the traversal of its tree, where the box test is the
    /// slab test and the leaf test is this relation for the primitive of the
    /// leaf. A medium answers as its kind says, its boundary being a
    /// hierarchy.
    pub open spec fn intersects_outcome<
        SL: Fn(Scalar, Scalar, Scalar) -> Scalar,
        SQ: Fn(&Sphere, &Ray) -> Roots,
        SF: Fn(&Sphere, &Ray, Scalar) -> Surface,
        PC: Fn(&Plane, &Ray) -> PlaneCrossing,
        TS: Fn(&Triangle, &Ray) -> TriangleSolution,
        MN: Fn(Scalar) -> Scalar,
        MP: Fn(&ConstantMedium, &Ray, Scalar, Scalar) -> Passage,
    >(
        self,
        ray: Ray,
        t_min: Scalar,
        t_max: Scalar,
        math: &Arithmetic<SL, SQ, SF, PC, TS, MN, MP>,
        r: Option<Intersection>,
    ) -> bool
        decreases self, 0nat,
    {
        match self {
            Object::Sphere(s) => s.intersects_outcome(
                ray,
                t_min,
                t_max,
                &math.solve,
                &math.surface,
                r,
            ),
            Object::Plane(p) => exists|c: PlaneCrossing| #[trigger]
                call_ensures(math.cross, (&p, &ray), c) && r == p.spec_intersects(
                    ray,
                    t_min,
                    t_max,
                    c,
                ),
            Object::Triangle(t) => exists|found: TriangleSolution| #[trigger]
                call_ensures(math.resolve, (&t, &ray), found) && r == t.spec_intersects(
                    found,
                    t_min,
                    t_max,
                ),
            Object::Box(b) => exists|hits: Seq<Option<Intersection>>| #[trigger]
                nearest_of(faces_outward(hits)) == r && hits.len() == b.faces.len() && forall|i: int|
                    0 <= i < b.faces.len() ==> b.faces[i].intersects_outcome(
                        ray,
                        t_min,
                        t_max,
                        math,
                        #[trigger] hits[i],
                    ),
            Object::ConstantMedium(m) => m.intersects_outcome(
                ray,
                t_min,
                t_max,
                m.boundary.answers(ray, math),
                &math.nudge,
                &math.pass,
                r,
            ),
            Object::BigObject(o) => o.objects.answers(ray, math)(t_min, t_max, r),
        }
    }
}

impl Bvh {
    /// Whether the hierarchy and every hierarchy within its primitives, at
    /// any depth, is sound.
    pub open spec fn sound(self) -> bool {
        self.wf() && forall|i: int|
            0 <= i < self.objects.len() ==> (#[trigger] self.objects[i]).sound()
    }

    /// What the primitives of the hierarchy can answer for one ray and one
    /// window, by their places in the list.
    pub open spec fn leaf_outcomes<
        SL: Fn(Scalar, Scalar, Scalar) -> Scalar,
        SQ: Fn(&Sphere, &Ray) -> Roots,
        SF: Fn(&Sphere, &Ray, Scalar) -> Surface,
        PC: Fn(&Plane, &Ray) -> PlaneCrossing,
        TS: Fn(&Triangle, &Ray) -> TriangleSolution,
        MN: Fn(Scalar) -> Scalar,
        MP: Fn(&ConstantMedium, &Ray, Scalar, Scalar) -> Passage,
    >(
        self,
        ray: Ray,
        lo: Scalar,
        hi: Scalar,
        math: &Arithmetic<SL, SQ, SF, PC, TS, MN, MP>,
    ) -> spec_fn(usize, Option<Intersection>) -> bool
        decreases self, 0nat,
    {
        |object: usize, found: Option<Intersection>|
            object < self.objects.len() && self.objects[object as int].intersects_outcome(
                ray,
                lo,
                hi,
                math,
                found,
            )
    }

    /// What the hierarchy can answer for one ray: the relation between a
    /// window and each answer of the traversal of the tree at its root,
    /// where the box test is the slab test and the leaf test is the hit of
    /// the ray with the primitive of the leaf.
    pub open spec fn answers<
        SL: Fn(Scalar, Scalar, Scalar) -> Scalar,
        SQ: Fn(&Sphere, &Ray) -> Roots,
        SF: Fn(&Sphere, &Ray, Scalar) -> Surface,
        PC: Fn(&Plane, &Ray) -> PlaneCrossing,
        TS: Fn(&Triangle, &Ray) -> TriangleSolution,
        MN: Fn(Scalar) -> Scalar,
        MP: Fn(&ConstantMedium, &Ray, Scalar, Scalar) -> Passage,
    >(
        self,
        ray: Ray,
        math: &Arithmetic<SL, SQ, SF, PC, TS, MN, MP>,
    ) -> spec_fn(Scalar, Scalar, Option<Intersection>) -> bool
        decreases self, 1nat,
    {
        |lo: Scalar, hi: Scalar, hit: Option<Intersection>|
            outcome(
                self.tree.nodes(),
                self.tree.root(),
                box_verdicts(&math.slab, ray, lo, hi),
                self.leaf_outcomes(ray, lo, hi, math),
                hit,
            )
    }

    /// The nearest hit of a ray in the hierarchy within the window
    /// `t_min..t_max`, under the arithmetic `math`: an answer of the
    /// traversal of the tree, where the box test is the slab test and the
    /// leaf test is the hit of the ray with the primitive of the leaf.
    pub fn nearest<
        SL: Fn(Scalar, Scalar, Scalar) -> Scalar,
        SQ: Fn(&Sphere, &Ray) -> Roots,
        SF: Fn(&Sphere, &Ray, Scalar) -> Surface,
        PC: Fn(&Plane, &Ray) -> PlaneCrossing,
        TS: Fn(&Triangle, &Ray) -> TriangleSolution,
        MN: Fn(Scalar) -> Scalar,
        MP: Fn(&ConstantMedium, &Ray, Scalar, Scalar) -> Passage,
    >(
        &self,
        ray: &Ray,
        t_min: Scalar,
        t_max: Scalar,
        math: &Arithmetic<SL, SQ, SF, PC, TS, MN, MP>,
    ) -> (r: Option<Intersection>)
        requires
            self.sound(),
            math.usable(),
        ensures
            self.answers(*ray, math)(t_min, t_max, r),
        decreases self,
    {
        let objects = &self.objects;
        let box_test = |b: Aabb| -> (verdict: bool)
            ensures
                box_verdicts(&math.slab, *ray, t_min, t_max)(b, verdict),
            { b.hit_ray(ray, t_min, t_max, &math.slab) };
        let intersect = |object: &Object| -> (found: Option<Intersection>)
            requires
                exists|i: int| 0 <= i < objects.len() && objects[i] == *object,
            ensures
                object.intersects_outcome(*ray, t_min, t_max, math, found),
            { object.intersects(ray, t_min, t_max, math) };
        let r = self.intersects(&box_test, &intersect);
        proof {
            lemma_outcome_is_monotone(
                self.tree.nodes(),
                self.tree.root(),
                answers_of_box_test(&box_test),
                answers_of_intersect(self.objects@, &intersect),
                box_verdicts(&math.slab, *ray, t_min, t_max),
                self.leaf_outcomes(*ray, t_min, t_max, math),
                r,
            );
        }
        r
    }
}

impl Object {
    /// The hit of a ray with the primitive within the window
    /// `t_min..t_max`, under the arithmetic `math`.
    pub fn intersects<
        SL: Fn(Scalar, Scalar, Scalar) -> Scalar,
        SQ: Fn(&Sphere, &Ray) -> Roots,
        SF: Fn(&Sphere, &Ray, Scalar) -> Surface,
        PC: Fn(&Plane, &Ray) -> PlaneCrossing,
        TS: Fn(&Triangle, &Ray) -> TriangleSolution,
        MN: Fn(Scalar) -> Scalar,
        MP: Fn(&ConstantMedium, &Ray, Scalar, Scalar) -> Passage,
    >(
        &self,
        ray: &Ray,
        t_min: Scalar,
        t_max: Scalar,
        math: &Arithmetic<SL, SQ, SF, PC, TS, MN, MP>,
    ) -> (r: Option<Intersection>)
        requires
            self.sound(),
            math.usable(),
        ensures
            self.intersects_outcome(*ray, t_min, t_max, math, r),
        decreases self,
    {
        match self {
            Object::Sphere(s) => s.intersects(ray, t_min, t_max, &math.solve, &math.surface),
            Object::Plane(p) => {
                let c = (math.cross)(p, ray);
                p.intersects(ray, t_min, t_max, c.t, c.a, c.b, c.point, c.uv)
            },
            Object::Triangle(t) => {
                let found = (math.resolve)(t, ray);
                t.intersects(
                    found.det,
                    found.u,
                    found.v,
                    found.u_plus_v,
                    found.t,
                    found.point,
                    t_min,
                    t_max,
                )
            },
            Object::Box(b) => {
                let faces = &b.faces;
                let intersect = |face: &Object| -> (found: Option<Intersection>)
                    requires
                        exists|i: int| 0 <= i < faces.len() && faces[i] == *face,
                    ensures
                        face.intersects_outcome(*ray, t_min, t_max, math, found),
                    { face.intersects(ray, t_min, t_max, math) };
                let r = b.intersects(&intersect);
                proof {
                    let hits = choose|hits: Seq<Option<Intersection>>| #[trigger]
                        outcomes_of(b.faces@, &intersect, hits) && r == nearest_of(
                            faces_outward(hits),
                        );
                    assert(nearest_of(faces_outward(hits)) == r);
                }
                r
            },
            Object::ConstantMedium(m) => {
                let boundary = |r: &Ray, lo: Scalar, hi: Scalar| -> (hit: Option<Intersection>)
                    requires
                        r == ray,
                    ensures
                        m.boundary.answers(*ray, math)(lo, hi, hit),
                    { m.boundary.nearest(r, lo, hi, math) };
                let r = m.intersects(ray, t_min, t_max, &boundary, &math.nudge, &math.pass);
                proof {
                    lemma_medium_outcome_is_monotone(
                        *m,
                        *ray,
                        t_min,
                        t_max,
                        answers_of_boundary(&boundary, *ray),
                        m.boundary.answers(*ray, math),
                        &math.nudge,
                        &math.pass,
                        r,
                    );
                }
                r
            },
            Object::BigObject(o) => o.objects.nearest(ray, t_min, t_max, math),
        }
    }
}

/// A primitive that is like a sound one is sound: what a clone of a sound
/// primitive gives can be asked for its hits.
pub proof fn lemma_alike_keeps_sound(a: Object, b: Object)
    requires
        a.alike(b),
        a.sound(),
    ensures
        b.sound(),
    decreases a,
{
    match a {
        Object::Box(x) => {
            let y = b->Box_0;
            assert forall|i: int| 0 <= i < y.faces.len() implies (#[trigger] y.faces[i]).sound() by {
                assert(x.faces[i].alike(y.faces[i]));
                assert(x.faces[i].sound());
                lemma_alike_keeps_sound(x.faces[i], y.faces[i]);
            }
        },
        Object::ConstantMedium(x) => {
            let y = b->ConstantMedium_0;
            lemma_alike_keeps_hierarchy_sound(x.boundary, y.boundary);
        },
        Object::BigObject(x) => {
            let y = b->BigObject_0;
            lemma_alike_keeps_hierarchy_sound(x.objects, y.objects);
        },
        _ => {},
    }
}

/// A hierarchy that is like a sound one is sound.
pub proof fn lemma_alike_keeps_hierarchy_sound(a: Bvh, b: Bvh)
    requires
        a.alike(b),
        a.sound(),
    ensures
        b.sound(),
    decreases a,
{
    crate::objects::lemma_alike_keeps_wf(a, b);
    assert forall|i: int| 0 <= i < b.objects.len() implies (#[trigger] b.objects[i]).sound() by {
        assert(a.objects[i].alike(b.objects[i]));
        assert(a.objects[i].sound());
        lemma_alike_keeps_sound(a.objects[i], b.objects[i]);
    }
}

} // verus!
