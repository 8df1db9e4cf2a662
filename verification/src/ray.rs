//! Rays, and the scan of a list of primitives for the nearest hit.

use vstd::prelude::*;
use crate::aabb::Aabb;
use crate::bvh::{lemma_outcome_is_monotone, outcome, answers_of_box_test, answers_of_leaf_test, BvhTree};
use crate::color::{color_of_bits, Color};
use crate::intersection::{is_nearest_hit, Intersection};
use crate::materials::{Bending, Material, Optics};
use crate::objects::{answers_of_intersect, Bvh, Object};
use crate::scalar::Scalar;
use crate::texture::{Texture, Uv};
use crate::vec3::Vec3;

verus! {

/// A ray: the points `origin + t * direction`. `time` is the instant at which
/// the ray was cast.
#[derive(Clone, Copy, Debug, PartialEq, Eq, Structural)]
pub struct Ray {
    pub origin: Vec3,
    pub direction: Vec3,
    pub time: Scalar,
}

/// Of the hit kept so far and the outcome of the next test, the one to keep:
/// the next one only if it is a hit and nothing was kept, or if it is a hit
/// at a smaller distance than the hit kept.
pub open spec fn keep_first(kept: Option<Intersection>, next: Option<Intersection>) -> Option<
    Intersection,
> {
    match (kept, next) {
        (Some(k), Some(n)) => if n.distance.spec_lt(k.distance) {
            next
        } else {
            kept
        },
        (Some(_), None) => kept,
        (None, _) => next,
    }
}

/// Chooses between the hit kept so far and the outcome of the next test.
pub fn select_first(kept: Option<Intersection>, next: Option<Intersection>) -> (r: Option<
    Intersection,
>)
    ensures
        r == keep_first(kept, next),
{
    match kept {
        Some(k) => match next {
            Some(n) => if n.distance.lt(k.distance) {
                next
            } else {
                kept
            },
            None => kept,
        },
        None => next,
    }
}

/// What a scan keeps of a table of test outcomes: the first of the hits with
/// the smallest distance, or nothing where nothing was hit.
pub open spec fn nearest_of(hits: Seq<Option<Intersection>>) -> Option<Intersection>
    decreases hits.len(),
{
    if hits.len() == 0 {
        None
    } else {
        keep_first(nearest_of(hits.drop_last()), hits.last())
    }
}

/// A table of test outcomes for a list of primitives: whether `hits` has one
/// entry for each primitive, each an answer that `intersect` can give for it.
pub open spec fn outcomes_of<L: Fn(&Object) -> Option<Intersection>>(
    objects: Seq<Object>,
    intersect: &L,
    hits: Seq<Option<Intersection>>,
) -> bool {
    &&& hits.len() == objects.len()
    &&& forall|i: int|
        0 <= i < objects.len() ==> call_ensures(intersect, (&objects[i],), #[trigger] hits[i])
}

/// What a scan keeps is a nearest hit of the table, where the distances of
/// the hits are numbers.
pub proof fn lemma_scan_finds_nearest(hits: Seq<Option<Intersection>>)
    requires
        crate::intersection::distances_are_numbers(hits),
    ensures
        is_nearest_hit(nearest_of(hits), hits),
    decreases hits.len(),
{
    if hits.len() > 0 {
        let front = hits.drop_last();
        lemma_scan_finds_nearest(front);
        let kept = nearest_of(front);
        let found = nearest_of(hits);
        if found is Some {
            if found == hits.last() {
                assert(hits[hits.len() - 1] == found);
            } else {
                let k = choose|k: int| 0 <= k < front.len() && #[trigger] front[k] == kept;
                assert(hits[k] == found);
            }
        }
        assert forall|k: int| 0 <= k < hits.len() && (#[trigger] hits[k]) is Some implies found
            is Some && found->0.distance.rank() <= hits[k]->0.distance.rank() by {
            if k < front.len() {
                assert(front[k] == hits[k]);
            }
            if kept is Some {
                let j = choose|j: int| 0 <= j < front.len() && #[trigger] front[j] == kept;
                assert(front[j] is Some);
            }
        }
    }
}

/// The light given off at a hit and what becomes of the ray there. It holds
/// of every such pair, and serves to name the pair.
pub open spec fn step_answers(emitted: Color, scattered: Option<(Color, Ray)>) -> bool {
    true
}

/// What a query can answer: the relation between a ray and each outcome that
/// a call of `query` on it can end with.
pub open spec fn answers_of_query<Q: Fn(&Ray) -> Option<Intersection>>(query: &Q) -> spec_fn(
    Ray,
    Option<Intersection>,
) -> bool {
    |ray: Ray, hit: Option<Intersection>| call_ensures(query, (&ray,), hit)
}

/// What a box test can answer for one ray.
pub open spec fn box_answers_for<B: Fn(&Ray, Aabb) -> bool>(box_test: &B, ray: Ray) -> spec_fn(
    Aabb,
    bool,
) -> bool {
    |b: Aabb, verdict: bool| call_ensures(box_test, (&ray, b), verdict)
}

/// What a leaf test can answer for one ray.
pub open spec fn leaf_answers_for<L: Fn(&Ray, usize) -> Option<Intersection>>(
    leaf_test: &L,
    ray: Ray,
) -> spec_fn(usize, Option<Intersection>) -> bool {
    |object: usize, hit: Option<Intersection>| call_ensures(leaf_test, (&ray, object), hit)
}

/// What a primitive test can answer for one ray and the primitives of a
/// list, by their places in the list.
pub open spec fn primitive_answers_for<L: Fn(&Ray, &Object) -> Option<Intersection>>(
    objects: Seq<Object>,
    intersect: &L,
    ray: Ray,
) -> spec_fn(usize, Option<Intersection>) -> bool {
    |object: usize, hit: Option<Intersection>|
        object < objects.len() && call_ensures(intersect, (&ray, &objects[object as int]), hit)
}

/// A table of test outcomes for one ray and a list of primitives: whether
/// `hits` has one entry for each primitive, each an answer that `intersect`
/// can give for the ray and that primitive.
pub open spec fn table_for<L: Fn(&Ray, &Object) -> Option<Intersection>>(
    objects: Seq<Object>,
    intersect: &L,
    ray: Ray,
    hits: Seq<Option<Intersection>>,
) -> bool {
    &&& hits.len() == objects.len()
    &&& forall|i: int|
        0 <= i < objects.len() ==> call_ensures(
            intersect,
            (&ray, &objects[i]),
            #[trigger] hits[i],
        )
}

/// What a scan of a list of primitives can answer: for each ray, what is
/// kept of a table of test outcomes for the ray.
pub open spec fn scan_answers<L: Fn(&Ray, &Object) -> Option<Intersection>>(
    objects: Seq<Object>,
    intersect: &L,
) -> spec_fn(Ray, Option<Intersection>) -> bool {
    |ray: Ray, hit: Option<Intersection>|
        exists|hits: Seq<Option<Intersection>>| #[trigger]
            table_for(objects, intersect, ray, hits) && hit == nearest_of(hits)
}

/// What the traversal of a tree can answer: for each ray, an answer at the
/// root under the two tests for that ray.
pub open spec fn tree_answers<
    B: Fn(&Ray, Aabb) -> bool,
    L: Fn(&Ray, usize) -> Option<Intersection>,
>(world: &BvhTree, box_test: &B, leaf_test: &L) -> spec_fn(Ray, Option<Intersection>) -> bool {
    |ray: Ray, hit: Option<Intersection>|
        outcome(
            world.nodes(),
            world.root(),
            box_answers_for(box_test, ray),
            leaf_answers_for(leaf_test, ray),
            hit,
        )
}

/// What the traversal of a hierarchy can answer: for each ray, an answer at
/// the root of its tree under the two tests for that ray.
pub open spec fn hierarchy_answers<
    B: Fn(&Ray, Aabb) -> bool,
    L: Fn(&Ray, &Object) -> Option<Intersection>,
>(world: &Bvh, box_test: &B, intersect: &L) -> spec_fn(Ray, Option<Intersection>) -> bool {
    |ray: Ray, hit: Option<Intersection>|
        outcome(
            world.tree.nodes(),
            world.tree.root(),
            box_answers_for(box_test, ray),
            primitive_answers_for(world.objects@, intersect, ray),
            hit,
        )
}

/// Whether `c` can be the light that comes in along `ray`, followed over at
/// most `depth` hits.
///
/// With no hit left to follow the light is black. Else the scene is asked
/// for the nearest hit of the ray; `query` relates a ray to what the scene
/// can answer. Where there is no hit, the light is the background. Where
/// there is one, the material gives off a light there and says what becomes
/// of the ray. An absorbed ray brings the light given off. A ray that goes
/// on brings what `combine` makes of the light given off, the colour by
/// which the ray is weakened and the light that comes in along the ray that
/// goes on, followed over one hit fewer.
pub open spec fn color_outcome<
    T: Fn(&Texture, Uv, Vec3) -> Color,
    LT: Fn(&Intersection) -> Vec3,
    DO: Fn(Vec3, Vec3) -> Scalar,
    MI: Fn(&Ray, &Intersection) -> Vec3,
    BL: Fn(Vec3, Scalar) -> Vec3,
    IV: Fn(Scalar) -> Scalar,
    BE: Fn(&Ray, Vec3, Scalar) -> Bending,
    AN: Fn() -> Vec3,
    C: Fn(Color, Color, Color) -> Color,
>(
    ray: Ray,
    query: spec_fn(Ray, Option<Intersection>) -> bool,
    sample: &T,
    optics: &Optics<LT, DO, MI, BL, IV, BE, AN>,
    combine: &C,
    background: Color,
    depth: nat,
    c: Color,
) -> bool
    decreases depth,
{
    if depth == 0 {
        c == color_of_bits(0, 0, 0)
    } else {
        exists|hit: Option<Intersection>| #[trigger]
            query(ray, hit) && match hit {
                None => c == background,
                Some(i) => exists|emitted: Color, scattered: Option<(Color, Ray)>|
                    #[trigger] step_answers(emitted, scattered) && i.mat.emitted_outcome(
                        i,
                        sample,
                        emitted,
                    ) && i.mat.scatter_outcome(ray, i, sample, optics, scattered) && match scattered {
                        None => c == emitted,
                        Some(pair) => exists|incoming: Color| #[trigger]
                            call_ensures(combine, (emitted, pair.0, incoming), c) && color_outcome(
                                pair.1,
                                query,
                                sample,
                                optics,
                                combine,
                                background,
                                (depth - 1) as nat,
                                incoming,
                            ),
                    },
            }
    }
}

/// Whether `buffers` can be what the first hit of a ray gives to the
/// denoiser: the base colour of the material at the hit, held between zero
/// and one, and the shading normal; or, where nothing is hit, the background
/// held between zero and one, and zero. `query` relates a ray to what the
/// scene can answer; the base colour is looked up in the hit point.
pub open spec fn buffer_outcome<T: Fn(&Texture, Uv, Vec3) -> Color>(
    ray: Ray,
    query: spec_fn(Ray, Option<Intersection>) -> bool,
    sample: &T,
    background: Color,
    buffers: (Seq<Scalar>, Seq<Scalar>),
) -> bool {
    exists|hit: Option<Intersection>| #[trigger]
        query(ray, hit) && match hit {
            None => buffers.0 =~= seq![
                Color::unit_clamped(background.r),
                Color::unit_clamped(background.g),
                Color::unit_clamped(background.b),
            ] && buffers.1 =~= seq![Scalar { bits: 0 }, Scalar { bits: 0 }, Scalar { bits: 0 }],
            Some(i) => exists|albedo: Color| #[trigger]
                i.mat.albedo_outcome(i.uv, i.point, sample, albedo) && buffers.0
                    =~= seq![
                    Color::unit_clamped(albedo.r),
                    Color::unit_clamped(albedo.g),
                    Color::unit_clamped(albedo.b),
                ] && buffers.1 =~= seq![i.normal.x, i.normal.y, i.normal.z],
        }
}

/// Light that can come in along a ray still can when the scene is allowed
/// more answers.
pub proof fn lemma_color_is_monotone<
    T: Fn(&Texture, Uv, Vec3) -> Color,
    LT: Fn(&Intersection) -> Vec3,
    DO: Fn(Vec3, Vec3) -> Scalar,
    MI: Fn(&Ray, &Intersection) -> Vec3,
    BL: Fn(Vec3, Scalar) -> Vec3,
    IV: Fn(Scalar) -> Scalar,
    BE: Fn(&Ray, Vec3, Scalar) -> Bending,
    AN: Fn() -> Vec3,
    C: Fn(Color, Color, Color) -> Color,
>(
    ray: Ray,
    query: spec_fn(Ray, Option<Intersection>) -> bool,
    wider: spec_fn(Ray, Option<Intersection>) -> bool,
    sample: &T,
    optics: &Optics<LT, DO, MI, BL, IV, BE, AN>,
    combine: &C,
    background: Color,
    depth: nat,
    c: Color,
)
    requires
        color_outcome(ray, query, sample, optics, combine, background, depth, c),
        forall|r: Ray, h: Option<Intersection>| #[trigger] query(r, h) ==> wider(r, h),
    ensures
        color_outcome(ray, wider, sample, optics, combine, background, depth, c),
    decreases depth,
{
    if depth > 0 {
        let hit = choose|hit: Option<Intersection>| #[trigger]
            query(ray, hit) && match hit {
                None => c == background,
                Some(i) => exists|emitted: Color, scattered: Option<(Color, Ray)>|
                    #[trigger] step_answers(emitted, scattered) && i.mat.emitted_outcome(
                        i,
                        sample,
                        emitted,
                    ) && i.mat.scatter_outcome(ray, i, sample, optics, scattered) && match scattered {
                        None => c == emitted,
                        Some(pair) => exists|incoming: Color| #[trigger]
                            call_ensures(combine, (emitted, pair.0, incoming), c) && color_outcome(
                                pair.1,
                                query,
                                sample,
                                optics,
                                combine,
                                background,
                                (depth - 1) as nat,
                                incoming,
                            ),
                    },
            };
        assert(wider(ray, hit));
        match hit {
            None => {},
            Some(i) => {
                let (emitted, scattered) = choose|emitted: Color, scattered: Option<(Color, Ray)>|
                    #[trigger] step_answers(emitted, scattered) && i.mat.emitted_outcome(
                        i,
                        sample,
                        emitted,
                    ) && i.mat.scatter_outcome(ray, i, sample, optics, scattered) && match scattered {
                        None => c == emitted,
                        Some(pair) => exists|incoming: Color| #[trigger]
                            call_ensures(combine, (emitted, pair.0, incoming), c) && color_outcome(
                                pair.1,
                                query,
                                sample,
                                optics,
                                combine,
                                background,
                                (depth - 1) as nat,
                                incoming,
                            ),
                    };
                assert(step_answers(emitted, scattered));
                match scattered {
                    None => {},
                    Some(pair) => {
                        let incoming = choose|incoming: Color| #[trigger]
                            call_ensures(combine, (emitted, pair.0, incoming), c) && color_outcome(
                                pair.1,
                                query,
                                sample,
                                optics,
                                combine,
                                background,
                                (depth - 1) as nat,
                                incoming,
                            );
                        lemma_color_is_monotone(
                            pair.1,
                            query,
                            wider,
                            sample,
                            optics,
                            combine,
                            background,
                            (depth - 1) as nat,
                            incoming,
                        );
                    },
                }
            },
        }
    }
}

/// With no hit left to follow, the light that comes in along a ray is black,
/// whatever the scene, the ray and the background.
pub proof fn lemma_no_depth_is_black<
    T: Fn(&Texture, Uv, Vec3) -> Color,
    LT: Fn(&Intersection) -> Vec3,
    DO: Fn(Vec3, Vec3) -> Scalar,
    MI: Fn(&Ray, &Intersection) -> Vec3,
    BL: Fn(Vec3, Scalar) -> Vec3,
    IV: Fn(Scalar) -> Scalar,
    BE: Fn(&Ray, Vec3, Scalar) -> Bending,
    AN: Fn() -> Vec3,
    C: Fn(Color, Color, Color) -> Color,
>(
    ray: Ray,
    query: spec_fn(Ray, Option<Intersection>) -> bool,
    sample: &T,
    optics: &Optics<LT, DO, MI, BL, IV, BE, AN>,
    combine: &C,
    background: Color,
    c: Color,
)
    requires
        color_outcome(ray, query, sample, optics, combine, background, 0, c),
    ensures
        c == color_of_bits(0, 0, 0),
{
}

impl Ray {
    pub fn new(origin: Vec3, direction: Vec3, time: Scalar) -> (r: Ray)
        ensures
            r == (Ray { origin, direction, time }),
    {
        Ray { origin, direction, time }
    }

    /// Whether the ray meets a surface from outside, given the dot product of
    /// its direction with the surface's outward normal: it does where the
    /// product is negative.
    pub fn front_face(dot: Scalar) -> (r: bool)
        ensures
            r == dot.spec_lt(Scalar { bits: 0 }),
    {
        dot.lt(Scalar::zero())
    }

    /// The nearest hit among `objects`, found by testing each of them in
    /// turn with `intersect`; of hits at one distance the first is kept.
    pub fn trace<L: Fn(&Object) -> Option<Intersection>>(objects: &Vec<Object>, intersect: &L) -> (r:
        Option<Intersection>)
        requires
            forall|i: int| 0 <= i < objects.len() ==> call_requires(intersect, (&objects[i],)),
        ensures
            exists|hits: Seq<Option<Intersection>>| #[trigger]
                outcomes_of(objects@, intersect, hits) && r == nearest_of(hits),
    {
        let mut kept: Option<Intersection> = None;
        let ghost mut hits: Seq<Option<Intersection>> = Seq::empty();
        let mut i: usize = 0;
        while i < objects.len()
            invariant
                i <= objects.len(),
                forall|j: int| 0 <= j < objects.len() ==> call_requires(intersect, (&objects[j],)),
                hits.len() == i,
                forall|j: int|
                    0 <= j < i ==> call_ensures(intersect, (&objects[j],), #[trigger] hits[j]),
                kept == nearest_of(hits),
            decreases objects.len() - i,
        {
            let next = intersect(&objects[i]);
            proof {
                assert(hits.push(next).drop_last() =~= hits);
                hits = hits.push(next);
            }
            kept = select_first(kept, next);
            i += 1;
        }
        assert(outcomes_of(objects@, intersect, hits));
        kept
    }

    /// The nearest hit of the ray among the primitives of a list.
    fn scan<L: Fn(&Ray, &Object) -> Option<Intersection>>(&self, world: &Vec<Object>, intersect: &L) -> (hit:
        Option<Intersection>)
        requires
            forall|r: &Ray, o: &Object| call_requires(intersect, (r, o)),
        ensures
            scan_answers(world@, intersect)(*self, hit),
    {
        let for_primitive = |o: &Object| -> (hit: Option<Intersection>)
            ensures
                call_ensures(intersect, (self, o), hit),
            { intersect(self, o) };
        let found = Ray::trace(world, &for_primitive);
        proof {
            let hits = choose|hits: Seq<Option<Intersection>>| #[trigger]
                outcomes_of(world@, &for_primitive, hits) && found == nearest_of(hits);
            assert(table_for(world@, intersect, *self, hits));
        }
        found
    }

    /// The nearest hit of the ray in a tree over primitives that the caller
    /// keeps.
    fn descend<B: Fn(&Ray, Aabb) -> bool, L: Fn(&Ray, usize) -> Option<Intersection>>(
        &self,
        world: &BvhTree,
        box_test: &B,
        leaf_test: &L,
    ) -> (hit: Option<Intersection>)
        requires
            world.wf(),
            forall|r: &Ray, b: Aabb| call_requires(box_test, (r, b)),
            forall|r: &Ray, i: usize| call_requires(leaf_test, (r, i)),
        ensures
            tree_answers(world, box_test, leaf_test)(*self, hit),
    {
        let for_box = |b: Aabb| -> (verdict: bool)
            ensures
                call_ensures(box_test, (self, b), verdict),
            { box_test(self, b) };
        let for_leaf = |i: usize| -> (hit: Option<Intersection>)
            ensures
                call_ensures(leaf_test, (self, i), hit),
            { leaf_test(self, i) };
        let found = world.hit(&for_box, &for_leaf);
        proof {
            lemma_outcome_is_monotone(
                world.nodes(),
                world.root(),
                answers_of_box_test(&for_box),
                answers_of_leaf_test(&for_leaf),
                box_answers_for(box_test, *self),
                leaf_answers_for(leaf_test, *self),
                found,
            );
        }
        found
    }

    /// The nearest hit of the ray in a hierarchy.
    fn descend_hierarchy<B: Fn(&Ray, Aabb) -> bool, L: Fn(&Ray, &Object) -> Option<Intersection>>(
        &self,
        world: &Bvh,
        box_test: &B,
        intersect: &L,
    ) -> (hit: Option<Intersection>)
        requires
            world.wf(),
            forall|r: &Ray, b: Aabb| call_requires(box_test, (r, b)),
            forall|r: &Ray, o: &Object| call_requires(intersect, (r, o)),
        ensures
            hierarchy_answers(world, box_test, intersect)(*self, hit),
    {
        let for_box = |b: Aabb| -> (verdict: bool)
            ensures
                call_ensures(box_test, (self, b), verdict),
            { box_test(self, b) };
        let for_primitive = |o: &Object| -> (hit: Option<Intersection>)
            ensures
                call_ensures(intersect, (self, o), hit),
            { intersect(self, o) };
        let found = world.intersects(&for_box, &for_primitive);
        proof {
            lemma_outcome_is_monotone(
                world.tree.nodes(),
                world.tree.root(),
                answers_of_box_test(&for_box),
                answers_of_intersect(world.objects@, &for_primitive),
                box_answers_for(box_test, *self),
                primitive_answers_for(world.objects@, intersect, *self),
                found,
            );
        }
        found
    }

    /// The light that comes in along the ray, followed over at most `depth`
    /// hits. `query` finds the nearest hit of a ray in the scene, `sample`
    /// looks a texture up, `optics` is the arithmetic of the materials, and
    /// `combine` adds to a first colour the product of two others. With
    /// `depth` zero the light is black, whatever the scene.
    pub fn color_by<
        Q: Fn(&Ray) -> Option<Intersection>,
        T: Fn(&Texture, Uv, Vec3) -> Color,
        LT: Fn(&Intersection) -> Vec3,
        DO: Fn(Vec3, Vec3) -> Scalar,
        MI: Fn(&Ray, &Intersection) -> Vec3,
        BL: Fn(Vec3, Scalar) -> Vec3,
        IV: Fn(Scalar) -> Scalar,
        BE: Fn(&Ray, Vec3, Scalar) -> Bending,
        AN: Fn() -> Vec3,
        C: Fn(Color, Color, Color) -> Color,
    >(
        &self,
        query: &Q,
        sample: &T,
        optics: &Optics<LT, DO, MI, BL, IV, BE, AN>,
        combine: &C,
        background: &Color,
        depth: u32,
    ) -> (c: Color)
        requires
            forall|r: &Ray| call_requires(query, (r,)),
            forall|t: &Texture, uv: Uv, p: Vec3| call_requires(sample, (t, uv, p)),
            optics.usable(),
            forall|a: Color, b: Color, c: Color| call_requires(combine, (a, b, c)),
        ensures
            color_outcome(
                *self,
                answers_of_query(query),
                sample,
                optics,
                combine,
                *background,
                depth as nat,
                c,
            ),
            depth == 0 ==> c == color_of_bits(0, 0, 0),
        decreases depth,
    {
        if depth == 0 {
            return Color::black();
        }
        let hit = query(self);
        assert(answers_of_query(query)(*self, hit));
        match hit {
            Some(i) => {
                let mat = i.mat;
                let emitted = mat.emitted(&i, sample);
                let scattered = mat.scatter(self, &i, sample, optics);
                assert(step_answers(emitted, scattered));
                match scattered {
                    Some((attenuation, onward)) => {
                        let incoming = onward.color_by(
                            query,
                            sample,
                            optics,
                            combine,
                            background,
                            depth - 1,
                        );
                        combine(emitted, attenuation, incoming)
                    },
                    None => emitted,
                }
            },
            None => *background,
        }
    }

    /// The light that comes in along the ray from a scene that is a list of
    /// primitives, followed over at most `depth` hits. `intersect` gives the
    /// hit of a ray with a primitive.
    pub fn color<
        L: Fn(&Ray, &Object) -> Option<Intersection>,
        T: Fn(&Texture, Uv, Vec3) -> Color,
        LT: Fn(&Intersection) -> Vec3,
        DO: Fn(Vec3, Vec3) -> Scalar,
        MI: Fn(&Ray, &Intersection) -> Vec3,
        BL: Fn(Vec3, Scalar) -> Vec3,
        IV: Fn(Scalar) -> Scalar,
        BE: Fn(&Ray, Vec3, Scalar) -> Bending,
        AN: Fn() -> Vec3,
        C: Fn(Color, Color, Color) -> Color,
    >(
        &self,
        world: &Vec<Object>,
        intersect: &L,
        sample: &T,
        optics: &Optics<LT, DO, MI, BL, IV, BE, AN>,
        combine: &C,
        background: &Color,
        depth: u32,
    ) -> (c: Color)
        requires
            forall|r: &Ray, o: &Object| call_requires(intersect, (r, o)),
            forall|t: &Texture, uv: Uv, p: Vec3| call_requires(sample, (t, uv, p)),
            optics.usable(),
            forall|a: Color, b: Color, c: Color| call_requires(combine, (a, b, c)),
        ensures
            color_outcome(
                *self,
                scan_answers(world@, intersect),
                sample,
                optics,
                combine,
                *background,
                depth as nat,
                c,
            ),
            depth == 0 ==> c == color_of_bits(0, 0, 0),
    {
        let query = |r: &Ray| -> (hit: Option<Intersection>)
            ensures
                scan_answers(world@, intersect)(*r, hit),
            { r.scan(world, intersect) };
        let c = self.color_by(&query, sample, optics, combine, background, depth);
        proof {
            lemma_color_is_monotone(
                *self,
                answers_of_query(&query),
                scan_answers(world@, intersect),
                sample,
                optics,
                combine,
                *background,
                depth as nat,
                c,
            );
        }
        c
    }

    /// The light that comes in along the ray from a scene that is a tree
    /// over primitives that the caller keeps, followed over at most `depth`
    /// hits. `box_test` says whether a ray passes through a box, `leaf_test`
    /// gives the hit of a ray with the primitive at a place in the caller's
    /// list.
    pub fn bvh_color<
        B: Fn(&Ray, Aabb) -> bool,
        L: Fn(&Ray, usize) -> Option<Intersection>,
        T: Fn(&Texture, Uv, Vec3) -> Color,
        LT: Fn(&Intersection) -> Vec3,
        DO: Fn(Vec3, Vec3) -> Scalar,
        MI: Fn(&Ray, &Intersection) -> Vec3,
        BL: Fn(Vec3, Scalar) -> Vec3,
        IV: Fn(Scalar) -> Scalar,
        BE: Fn(&Ray, Vec3, Scalar) -> Bending,
        AN: Fn() -> Vec3,
        C: Fn(Color, Color, Color) -> Color,
    >(
        &self,
        world: &BvhTree,
        box_test: &B,
        leaf_test: &L,
        sample: &T,
        optics: &Optics<LT, DO, MI, BL, IV, BE, AN>,
        combine: &C,
        background: &Color,
        depth: u32,
    ) -> (c: Color)
        requires
            world.wf(),
            forall|r: &Ray, b: Aabb| call_requires(box_test, (r, b)),
            forall|r: &Ray, i: usize| call_requires(leaf_test, (r, i)),
            forall|t: &Texture, uv: Uv, p: Vec3| call_requires(sample, (t, uv, p)),
            optics.usable(),
            forall|a: Color, b: Color, c: Color| call_requires(combine, (a, b, c)),
        ensures
            color_outcome(
                *self,
                tree_answers(world, box_test, leaf_test),
                sample,
                optics,
                combine,
                *background,
                depth as nat,
                c,
            ),
            depth == 0 ==> c == color_of_bits(0, 0, 0),
    {
        let query = |r: &Ray| -> (hit: Option<Intersection>)
            ensures
                tree_answers(world, box_test, leaf_test)(*r, hit),
            { r.descend(world, box_test, leaf_test) };
        let c = self.color_by(&query, sample, optics, combine, background, depth);
        proof {
            lemma_color_is_monotone(
                *self,
                answers_of_query(&query),
                tree_answers(world, box_test, leaf_test),
                sample,
                optics,
                combine,
                *background,
                depth as nat,
                c,
            );
        }
        c
    }

    /// The light that comes in along the ray from a scene that is a
    /// hierarchy of primitives, followed over at most `depth` hits.
    /// `box_test` says whether a ray passes through a box, `intersect` gives
    /// the hit of a ray with a primitive.
    pub fn bvh2_color<
        B: Fn(&Ray, Aabb) -> bool,
        L: Fn(&Ray, &Object) -> Option<Intersection>,
        T: Fn(&Texture, Uv, Vec3) -> Color,
        LT: Fn(&Intersection) -> Vec3,
        DO: Fn(Vec3, Vec3) -> Scalar,
        MI: Fn(&Ray, &Intersection) -> Vec3,
        BL: Fn(Vec3, Scalar) -> Vec3,
        IV: Fn(Scalar) -> Scalar,
        BE: Fn(&Ray, Vec3, Scalar) -> Bending,
        AN: Fn() -> Vec3,
        C: Fn(Color, Color, Color) -> Color,
    >(
        &self,
        world: &Bvh,
        box_test: &B,
        intersect: &L,
        sample: &T,
        optics: &Optics<LT, DO, MI, BL, IV, BE, AN>,
        combine: &C,
        background: &Color,
        depth: u32,
    ) -> (c: Color)
        requires
            world.wf(),
            forall|r: &Ray, b: Aabb| call_requires(box_test, (r, b)),
            forall|r: &Ray, o: &Object| call_requires(intersect, (r, o)),
            forall|t: &Texture, uv: Uv, p: Vec3| call_requires(sample, (t, uv, p)),
            optics.usable(),
            forall|a: Color, b: Color, c: Color| call_requires(combine, (a, b, c)),
        ensures
            color_outcome(
                *self,
                hierarchy_answers(world, box_test, intersect),
                sample,
                optics,
                combine,
                *background,
                depth as nat,
                c,
            ),
            depth == 0 ==> c == color_of_bits(0, 0, 0),
    {
        let query = |r: &Ray| -> (hit: Option<Intersection>)
            ensures
                hierarchy_answers(world, box_test, intersect)(*r, hit),
            { r.descend_hierarchy(world, box_test, intersect) };
        let c = self.color_by(&query, sample, optics, combine, background, depth);
        proof {
            lemma_color_is_monotone(
                *self,
                answers_of_query(&query),
                hierarchy_answers(world, box_test, intersect),
                sample,
                optics,
                combine,
                *background,
                depth as nat,
                c,
            );
        }
        c
    }

    /// What a hit gives to the denoiser, or what no hit gives.
    fn buffers_of<T: Fn(&Texture, Uv, Vec3) -> Color>(
        &self,
        hit: Option<Intersection>,
        query: Ghost<spec_fn(Ray, Option<Intersection>) -> bool>,
        sample: &T,
        background: &Color,
    ) -> (r: (Vec<Scalar>, Vec<Scalar>))
        requires
            query@(*self, hit),
            forall|t: &Texture, uv: Uv, p: Vec3| call_requires(sample, (t, uv, p)),
        ensures
            buffer_outcome(*self, query@, sample, *background, (r.0@, r.1@)),
    {
        match hit {
            Some(i) => {
                let albedo = i.mat.albedo(i.uv, i.point, sample);
                (albedo.to_vec_f32(), i.normal.to_vec_f32())
            },
            None => (background.to_vec_f32(), Vec3::zero().to_vec_f32()),
        }
    }

    /// What the first hit of the ray gives to the denoiser, in a scene that
    /// is a list of primitives. The base colour is looked up in the hit
    /// point.
    pub fn buffer<L: Fn(&Ray, &Object) -> Option<Intersection>, T: Fn(&Texture, Uv, Vec3) -> Color>(
        &self,
        world: &Vec<Object>,
        intersect: &L,
        sample: &T,
        background: &Color,
    ) -> (r: (Vec<Scalar>, Vec<Scalar>))
        requires
            forall|r: &Ray, o: &Object| call_requires(intersect, (r, o)),
            forall|t: &Texture, uv: Uv, p: Vec3| call_requires(sample, (t, uv, p)),
        ensures
            buffer_outcome(
                *self,
                scan_answers(world@, intersect),
                sample,
                *background,
                (r.0@, r.1@),
            ),
    {
        let hit = self.scan(world, intersect);
        self.buffers_of(hit, Ghost(scan_answers(world@, intersect)), sample, background)
    }

    /// What the first hit of the ray gives to the denoiser, in a scene that
    /// is a tree over primitives that the caller keeps. The base colour is
    /// looked up in the hit point.
    pub fn bvh_buffer<
        B: Fn(&Ray, Aabb) -> bool,
        L: Fn(&Ray, usize) -> Option<Intersection>,
        T: Fn(&Texture, Uv, Vec3) -> Color,
    >(
        &self,
        world: &BvhTree,
        box_test: &B,
        leaf_test: &L,
        sample: &T,
        background: &Color,
    ) -> (r: (Vec<Scalar>, Vec<Scalar>))
        requires
            world.wf(),
            forall|r: &Ray, b: Aabb| call_requires(box_test, (r, b)),
            forall|r: &Ray, i: usize| call_requires(leaf_test, (r, i)),
            forall|t: &Texture, uv: Uv, p: Vec3| call_requires(sample, (t, uv, p)),
        ensures
            buffer_outcome(
                *self,
                tree_answers(world, box_test, leaf_test),
                sample,
                *background,
                (r.0@, r.1@),
            ),
    {
        let hit = self.descend(world, box_test, leaf_test);
        self.buffers_of(
            hit,
            Ghost(tree_answers(world, box_test, leaf_test)),
            sample,
            background,
        )
    }

    /// What the first hit of the ray gives to the denoiser, in a scene that
    /// is a hierarchy of primitives. The base colour is looked up in the hit
    /// point.
    pub fn bvh2_buffer<
        B: Fn(&Ray, Aabb) -> bool,
        L: Fn(&Ray, &Object) -> Option<Intersection>,
        T: Fn(&Texture, Uv, Vec3) -> Color,
    >(
        &self,
        world: &Bvh,
        box_test: &B,
        intersect: &L,
        sample: &T,
        background: &Color,
    ) -> (r: (Vec<Scalar>, Vec<Scalar>))
        requires
            world.wf(),
            forall|r: &Ray, b: Aabb| call_requires(box_test, (r, b)),
            forall|r: &Ray, o: &Object| call_requires(intersect, (r, o)),
            forall|t: &Texture, uv: Uv, p: Vec3| call_requires(sample, (t, uv, p)),
        ensures
            buffer_outcome(
                *self,
                hierarchy_answers(world, box_test, intersect),
                sample,
                *background,
                (r.0@, r.1@),
            ),
    {
        let hit = self.descend_hierarchy(world, box_test, intersect);
        self.buffers_of(
            hit,
            Ghost(hierarchy_answers(world, box_test, intersect)),
            sample,
            background,
        )
    }
}

} // verus!
