//! Axis-aligned bounding boxes and the slab test.

use vstd::prelude::*;
use crate::ray::Ray;
use crate::scalar::Scalar;
use crate::vec3::Vec3;

verus! {

/// A box given by its two extreme corners.
#[derive(Clone, Copy, Debug, PartialEq, Eq, Structural)]
pub struct Aabb {
    pub min: Vec3,
    pub max: Vec3,
}

/// The parameters at which a ray crosses the two planes that bound a box along
/// one axis: `at_min` for the plane through the box's minimum corner, `at_max`
/// for the one through its maximum corner.
#[derive(Clone, Copy, Debug, PartialEq, Eq, Structural)]
pub struct Crossing {
    pub at_min: Scalar,
    pub at_max: Scalar,
}

/// A stretch of ray parameters, from `lo` to `hi`.
#[derive(Clone, Copy, Debug, PartialEq, Eq, Structural)]
pub struct Window {
    pub lo: Scalar,
    pub hi: Scalar,
}

impl Crossing {
    /// The parameter at which the ray enters the slab.
    pub open spec fn entry(self) -> Scalar {
        self.at_min.spec_min(self.at_max)
    }

    /// The parameter at which the ray leaves the slab.
    pub open spec fn exit(self) -> Scalar {
        self.at_min.spec_max(self.at_max)
    }

    /// Whether both parameters are numbers.
    pub open spec fn is_numeric(self) -> bool {
        !self.at_min.nan() && !self.at_max.nan()
    }
}

impl Window {
    /// The window cut down to the part of it that lies between the two
    /// parameters of one crossing.
    pub open spec fn narrowed(self, c: Crossing) -> Window {
        Window { lo: c.entry().spec_max(self.lo), hi: c.exit().spec_min(self.hi) }
    }

    /// Whether the window has collapsed: its upper end does not lie above its
    /// lower end.
    pub open spec fn collapsed(self) -> bool {
        self.hi.spec_le(self.lo)
    }

    /// Whether both ends are numbers.
    pub open spec fn is_numeric(self) -> bool {
        !self.lo.nan() && !self.hi.nan()
    }

    /// Whether `t` lies strictly inside the window.
    pub open spec fn holds(self, t: Scalar) -> bool {
        self.lo.spec_lt(t) && t.spec_lt(self.hi)
    }
}

impl Aabb {
    /// The box invariant: on every axis the minimum corner does not lie above
    /// the maximum corner. It rules out NaN coordinates.
    pub open spec fn wf(self) -> bool {
        &&& self.min.x.spec_le(self.max.x)
        &&& self.min.y.spec_le(self.max.y)
        &&& self.min.z.spec_le(self.max.z)
    }

    /// Whether `inner` lies within this box on every axis.
    pub open spec fn contains(self, inner: Aabb) -> bool {
        &&& self.min.x.spec_le(inner.min.x) && inner.max.x.spec_le(self.max.x)
        &&& self.min.y.spec_le(inner.min.y) && inner.max.y.spec_le(self.max.y)
        &&& self.min.z.spec_le(inner.min.z) && inner.max.z.spec_le(self.max.z)
    }

    /// What the slab test answers: the window is narrowed by the crossings of
    /// the x, y and z slabs in turn, and the ray hits if the window has
    /// collapsed after none of the three steps.
    ///
    /// NaN parameters are treated as `spec_min` and `spec_max` treat them: an
    /// axis whose two parameters are both NaN leaves the window as it is, and
    /// an axis with exactly one NaN parameter collapses it.
    pub open spec fn spec_hit(x: Crossing, y: Crossing, z: Crossing, window: Window) -> bool {
        let wx = window.narrowed(x);
        let wy = wx.narrowed(y);
        let wz = wy.narrowed(z);
        !wx.collapsed() && !wy.collapsed() && !wz.collapsed()
    }

    /// Whether `c` can be the crossing of a ray with the slab of the box
    /// along `axis`, where `slab` finds the parameter at which a ray with a
    /// given origin and direction on the axis reaches a given coordinate.
    pub open spec fn crossed_at<S: Fn(Scalar, Scalar, Scalar) -> Scalar>(
        self,
        ray: Ray,
        slab: &S,
        axis: int,
        c: Crossing,
    ) -> bool {
        &&& call_ensures(
            slab,
            (self.min.component(axis), ray.origin.component(axis), ray.direction.component(axis)),
            c.at_min,
        )
        &&& call_ensures(
            slab,
            (self.max.component(axis), ray.origin.component(axis), ray.direction.component(axis)),
            c.at_max,
        )
    }

    /// Whether `x`, `y` and `z` can be the crossings of a ray with the three
    /// slabs of the box.
    pub open spec fn crossings_of<S: Fn(Scalar, Scalar, Scalar) -> Scalar>(
        self,
        ray: Ray,
        slab: &S,
        x: Crossing,
        y: Crossing,
        z: Crossing,
    ) -> bool {
        self.crossed_at(ray, slab, 0, x) && self.crossed_at(ray, slab, 1, y) && self.crossed_at(
            ray,
            slab,
            2,
            z,
        )
    }

    /// The crossing of a ray with the slab of the box along an axis.
    pub fn crossing<S: Fn(Scalar, Scalar, Scalar) -> Scalar>(&self, r: &Ray, slab: &S, axis: usize) -> (c:
        Crossing)
        requires
            axis < 3,
            forall|bound: Scalar, origin: Scalar, direction: Scalar|
                call_requires(slab, (bound, origin, direction)),
        ensures
            self.crossed_at(*r, slab, axis as int, c),
    {
        let origin = r.origin.get(axis);
        let direction = r.direction.get(axis);
        Crossing {
            at_min: slab(self.min.get(axis), origin, direction),
            at_max: slab(self.max.get(axis), origin, direction),
        }
    }

    /// The slab test of a ray against the box within the window
    /// `tmin..tmax`. `slab` does the arithmetic: it finds the parameter at
    /// which a ray with a given origin and direction on an axis reaches a
    /// given coordinate.
    pub fn hit_ray<S: Fn(Scalar, Scalar, Scalar) -> Scalar>(
        &self,
        r: &Ray,
        tmin: Scalar,
        tmax: Scalar,
        slab: &S,
    ) -> (hit: bool)
        requires
            forall|bound: Scalar, origin: Scalar, direction: Scalar|
                call_requires(slab, (bound, origin, direction)),
        ensures
            exists|x: Crossing, y: Crossing, z: Crossing| #[trigger]
                self.crossings_of(*r, slab, x, y, z) && hit == Self::spec_hit(
                    x,
                    y,
                    z,
                    Window { lo: tmin, hi: tmax },
                ),
    {
        let x = self.crossing(r, slab, 0);
        let y = self.crossing(r, slab, 1);
        let z = self.crossing(r, slab, 2);
        assert(self.crossings_of(*r, slab, x, y, z));
        Self::hit(x, y, z, tmin, tmax)
    }

    /// The slab test of a ray against a box, from the ray's crossing
    /// parameters on the three axes and the window `tmin..tmax` of the query.
    pub fn hit(x: Crossing, y: Crossing, z: Crossing, tmin: Scalar, tmax: Scalar) -> (r: bool)
        ensures
            r == Self::spec_hit(x, y, z, Window { lo: tmin, hi: tmax }),
    {
        let mut lo = tmin;
        let mut hi = tmax;
        let crossings = [x, y, z];
        let ghost mut w = Window { lo: tmin, hi: tmax };
        for a in 0..3usize
            invariant
                crossings@ == seq![x, y, z],
                w == (Window { lo, hi }),
                a == 0 ==> w == (Window { lo: tmin, hi: tmax }),
                a == 1 ==> w == (Window { lo: tmin, hi: tmax }).narrowed(x) && !w.collapsed(),
                a == 2 ==> w == (Window { lo: tmin, hi: tmax }).narrowed(x).narrowed(y)
                    && !(Window { lo: tmin, hi: tmax }).narrowed(x).collapsed() && !w.collapsed(),
                a == 3 ==> Self::spec_hit(x, y, z, Window { lo: tmin, hi: tmax }),
        {
            let c = crossings[a];
            let t0 = c.at_min.min(c.at_max);
            let t1 = c.at_min.max(c.at_max);
            lo = t0.max(lo);
            hi = t1.min(hi);
            proof {
                w = w.narrowed(c);
            }
            if hi.le(lo) {
                return false;
            }
        }
        true
    }
}

/// The largest of the window's lower end and the three entry parameters, by
/// rank: where the ray has entered all three slabs and the window.
pub open spec fn latest_entry(x: Crossing, y: Crossing, z: Crossing, window: Window) -> int {
    let a = if x.entry().rank() > window.lo.rank() { x.entry().rank() } else { window.lo.rank() };
    let b = if y.entry().rank() > a { y.entry().rank() } else { a };
    if z.entry().rank() > b { z.entry().rank() } else { b }
}

/// The smallest of the window's upper end and the three exit parameters, by
/// rank: where the ray first leaves one of the three slabs or the window.
pub open spec fn earliest_exit(x: Crossing, y: Crossing, z: Crossing, window: Window) -> int {
    let a = if x.exit().rank() < window.hi.rank() { x.exit().rank() } else { window.hi.rank() };
    let b = if y.exit().rank() < a { y.exit().rank() } else { a };
    if z.exit().rank() < b { z.exit().rank() } else { b }
}

/// Where every parameter is a number, the slab test answers whether the ray
/// is inside all three slabs and the window at once: whether it has entered
/// the last of them before it leaves the first.
pub proof fn lemma_hit_is_overlap(x: Crossing, y: Crossing, z: Crossing, window: Window)
    requires
        x.is_numeric(),
        y.is_numeric(),
        z.is_numeric(),
        window.is_numeric(),
    ensures
        Aabb::spec_hit(x, y, z, window) <==> latest_entry(x, y, z, window) < earliest_exit(
            x,
            y,
            z,
            window,
        ),
{
}

/// A ray that passes through the interior of the box within the window is
/// hit: if some parameter `t` lies strictly inside the window and strictly
/// between entry and exit on every axis, the slab test answers true.
pub proof fn lemma_interior_passage_hits(
    x: Crossing,
    y: Crossing,
    z: Crossing,
    window: Window,
    t: Scalar,
)
    requires
        window.holds(t),
        x.entry().spec_lt(t) && t.spec_lt(x.exit()),
        y.entry().spec_lt(t) && t.spec_lt(y.exit()),
        z.entry().spec_lt(t) && t.spec_lt(z.exit()),
    ensures
        Aabb::spec_hit(x, y, z, window),
{
}

/// A ray whose window collapses on some axis is not hit.
pub proof fn lemma_collapsed_window_misses(x: Crossing, y: Crossing, z: Crossing, window: Window)
    requires
        window.narrowed(x).collapsed() || window.narrowed(x).narrowed(y).collapsed()
            || window.narrowed(x).narrowed(y).narrowed(z).collapsed(),
    ensures
        !Aabb::spec_hit(x, y, z, window),
{
}

/// The surrounding box of two boxes contains both of them, and is itself a
/// box.
pub proof fn lemma_surrounding_box_contains(a: Aabb, b: Aabb)
    requires
        a.wf(),
        b.wf(),
    ensures
        surrounding(a, b).wf(),
        surrounding(a, b).contains(a),
        surrounding(a, b).contains(b),
{
}

/// The surrounding box of two boxes, as a value.
pub open spec fn surrounding(a: Aabb, b: Aabb) -> Aabb {
    Aabb { min: a.min.spec_min(b.min), max: a.max.spec_max(b.max) }
}

/// The smallest box that encloses two boxes: the componentwise minimum of
/// their minimum corners and the componentwise maximum of their maximum
/// corners.
pub fn surrounding_box(box_0: &Aabb, box_1: &Aabb) -> (r: Aabb)
    ensures
        r == surrounding(*box_0, *box_1),
{
    let min = Vec3::new(
        box_0.min.x.min(box_1.min.x),
        box_0.min.y.min(box_1.min.y),
        box_0.min.z.min(box_1.min.z),
    );
    let max = Vec3::new(
        box_0.max.x.max(box_1.max.x),
        box_0.max.y.max(box_1.max.y),
        box_0.max.z.max(box_1.max.z),
    );
    Aabb { min, max }
}

} // verus!
