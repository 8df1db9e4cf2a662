//! The record of a ray meeting a surface.

use vstd::prelude::*;
use crate::materials::Material;
use crate::scalar::Scalar;
use crate::texture::Uv;
use crate::vec3::Vec3;

verus! {

/// Where a ray met a primitive, and what it met there.
///
/// `distance` is the ray parameter of the meeting point. `normal` is the
/// shading normal; `outward_normal` points away from the primitive's inside.
#[derive(Clone, Copy, Debug, PartialEq, Eq, Structural)]
pub struct Intersection {
    pub distance: Scalar,
    pub point: Vec3,
    pub normal: Vec3,
    pub outward_normal: Vec3,
    pub mat: Material,
    pub uv: Uv,
}

impl Intersection {
    pub fn new(
        distance: Scalar,
        point: Vec3,
        normal: Vec3,
        outward_normal: Vec3,
        mat: &Material,
        uv: Uv,
    ) -> (i: Intersection)
        ensures
            i == (Intersection { distance, point, normal, outward_normal, mat: *mat, uv }),
    {
        Intersection { distance, point, normal, outward_normal, mat: *mat, uv }
    }
}

/// Of two outcomes of intersection tests, the one to keep: a hit over a miss,
/// and of two hits the left one if its distance is smaller, else the right
/// one.
pub open spec fn nearer(left: Option<Intersection>, right: Option<Intersection>) -> Option<
    Intersection,
> {
    match (left, right) {
        (Some(l), Some(r)) => if l.distance.spec_lt(r.distance) {
            left
        } else {
            right
        },
        (Some(_), None) => left,
        (None, _) => right,
    }
}

/// Chooses between the outcomes of two intersection tests.
pub fn select_nearer(left: Option<Intersection>, right: Option<Intersection>) -> (r: Option<
    Intersection,
>)
    ensures
        r == nearer(left, right),
{
    match left {
        Some(l) => match right {
            Some(r) => {
                if l.distance.lt(r.distance) {
                    left
                } else {
                    right
                }
            },
            None => left,
        },
        None => right,
    }
}

/// Whether `found` is a nearest hit of a table of test outcomes, one outcome
/// for each primitive: it is one of the hits in the table if it is anything,
/// and no hit in the table has a smaller distance.
pub open spec fn is_nearest_hit(found: Option<Intersection>, hits: Seq<Option<Intersection>>) -> bool {
    &&& found is Some ==> exists|k: int| 0 <= k < hits.len() && #[trigger] hits[k] == found
    &&& forall|k: int|
        0 <= k < hits.len() && (#[trigger] hits[k]) is Some ==> found is Some
            && found->0.distance.rank() <= hits[k]->0.distance.rank()
}

/// Whether every hit in a table has a distance that is a number.
pub open spec fn distances_are_numbers(hits: Seq<Option<Intersection>>) -> bool {
    forall|k: int|
        0 <= k < hits.len() && (#[trigger] hits[k]) is Some ==> !hits[k]->0.distance.nan()
}

/// Two nearest hits of one table lie at the same distance, and there is one
/// if and only if there is the other.
pub proof fn lemma_nearest_hits_agree(
    a: Option<Intersection>,
    b: Option<Intersection>,
    hits: Seq<Option<Intersection>>,
)
    requires
        is_nearest_hit(a, hits),
        is_nearest_hit(b, hits),
    ensures
        a is Some <==> b is Some,
        a is Some ==> a->0.distance.rank() == b->0.distance.rank(),
{
    if a is Some {
        let k = choose|k: int| 0 <= k < hits.len() && #[trigger] hits[k] == a;
        assert(hits[k] is Some);
    }
    if b is Some {
        let k = choose|k: int| 0 <= k < hits.len() && #[trigger] hits[k] == b;
        assert(hits[k] is Some);
    }
}

} // verus!
