//! Materials: how a surface answers to light.

use vstd::prelude::*;
use crate::color::{color_of_bits, Color};
use crate::intersection::Intersection;
use crate::ray::Ray;
use crate::scalar::{Scalar, ONE_BITS};
use crate::texture::{Texture, Uv};
use crate::vec3::Vec3;

verus! {

/// The kinds of material.
#[derive(Clone, Copy, Debug, PartialEq, Eq, Structural)]
pub enum Material {
    Labertian(Lambertian),
    Metal(Metal),
    Dielectric(Dielectric),
    EmissiveDiffuse(EmissiveDiffuse),
    Isotropic(Isotropic),
    Glossy(Glossy),
}

/// A matte surface.
#[derive(Clone, Copy, Debug, PartialEq, Eq, Structural)]
pub struct Lambertian {
    pub texture: Texture,
}

/// A mirror, blurred by `fuzz`.
#[derive(Clone, Copy, Debug, PartialEq, Eq, Structural)]
pub struct Metal {
    pub texture: Texture,
    pub fuzz: Scalar,
}

/// A clear body with index of refraction `ir`.
#[derive(Clone, Copy, Debug, PartialEq, Eq, Structural)]
pub struct Dielectric {
    pub ir: Scalar,
}

/// A light source.
#[derive(Clone, Copy, Debug, PartialEq, Eq, Structural)]
pub struct EmissiveDiffuse {
    pub texture: Texture,
}

/// The phase function of a participating medium.
#[derive(Clone, Copy, Debug, PartialEq, Eq, Structural)]
pub struct Isotropic {
    pub texture: Texture,
}

/// A surface that sends every ray back along its normal.
#[derive(Clone, Copy, Debug, PartialEq, Eq, Structural)]
pub struct Glossy {
    pub texture: Texture,
    pub roughness: Scalar,
}

impl Lambertian {
    pub fn new(texture: Texture) -> (m: Material)
        ensures
            m == Material::Labertian(Lambertian { texture }),
    {
        Material::Labertian(Lambertian { texture })
    }
}

impl Metal {
    pub fn new(texture: Texture, fuzz: Scalar) -> (m: Material)
        ensures
            m == Material::Metal(Metal { texture, fuzz }),
    {
        Material::Metal(Metal { texture, fuzz })
    }
}

impl Dielectric {
    pub fn new(index_of_refraction: Scalar) -> (m: Material)
        ensures
            m == Material::Dielectric(Dielectric { ir: index_of_refraction }),
    {
        Material::Dielectric(Dielectric { ir: index_of_refraction })
    }
}

impl EmissiveDiffuse {
    pub fn new(texture: Texture) -> (m: Material)
        ensures
            m == Material::EmissiveDiffuse(EmissiveDiffuse { texture }),
    {
        Material::EmissiveDiffuse(EmissiveDiffuse { texture })
    }
}

impl Isotropic {
    pub fn new(texture: Texture) -> (m: Material)
        ensures
            m == Material::Isotropic(Isotropic { texture }),
    {
        Material::Isotropic(Isotropic { texture })
    }
}

impl Glossy {
    pub fn new(texture: Texture, roughness: Scalar) -> (m: Material)
        ensures
            m == Material::Glossy(Glossy { texture, roughness }),
    {
        Material::Glossy(Glossy { texture, roughness })
    }
}

/// The bit pattern of 0.00000001: a vector all of whose components are
/// smaller in absolute value is taken to be zero.
pub const NEAR_ZERO_BITS: u32 = 0x322b_cc77;

/// The way in which a ray leaves a surface: the direction, and for a mirror
/// the dot product of that direction with the shading normal, which says
/// whether the ray leaves the surface on the side it came from.
#[derive(Clone, Copy, Debug, PartialEq, Eq, Structural)]
pub struct Bounce {
    pub direction: Vec3,
    pub facing: Scalar,
}

/// Whether every component of `v` is nearer to zero than a hundred-millionth.
pub open spec fn near_zero(v: Vec3) -> bool {
    let limit = Scalar { bits: NEAR_ZERO_BITS };
    v.x.spec_abs().spec_lt(limit) && v.y.spec_abs().spec_lt(limit) && v.z.spec_abs().spec_lt(limit)
}

/// Whether every component of `v` is nearer to zero than a hundred-millionth.
pub fn is_near_zero(v: &Vec3) -> (r: bool)
    ensures
        r == near_zero(*v),
{
    let limit = Scalar::from_bits(NEAR_ZERO_BITS);
    v.x.abs().lt(limit) && v.y.abs().lt(limit) && v.z.abs().lt(limit)
}

impl Lambertian {
    /// The direction in which a matte surface sends a ray: `candidate`, the
    /// sum of the shading normal and a random unit vector; but the normal
    /// itself where that sum is near zero.
    pub open spec fn spec_scatter_direction(candidate: Vec3, normal: Vec3) -> Vec3 {
        if near_zero(candidate) {
            normal
        } else {
            candidate
        }
    }

    /// The direction in which a matte surface sends a ray.
    pub fn scatter_direction(candidate: Vec3, normal: Vec3) -> (direction: Vec3)
        ensures
            direction == Self::spec_scatter_direction(candidate, normal),
    {
        if is_near_zero(&candidate) {
            normal
        } else {
            candidate
        }
    }
}

impl Metal {
    /// Whether a mirror sends a ray on: it does where the dot product of the
    /// direction in which the ray would leave, mirrored and blurred, with
    /// the shading normal is positive. Elsewhere the ray would leave into the
    /// surface, and is absorbed.
    pub fn reflects_outward(facing: Scalar) -> (r: bool)
        ensures
            r == (Scalar { bits: 0 }).spec_lt(facing),
    {
        facing.gt(Scalar::zero())
    }
}

impl Dielectric {
    /// The ratio of refraction and the normal against which a ray is bent.
    /// `dot` is the dot product of the ray's direction with the outward
    /// normal. Where it is negative the ray enters the body: the ratio is
    /// `inverse_ir`, the inverse of the index of refraction, and the normal
    /// is the outward normal. Elsewhere the ray leaves the body: the ratio is
    /// the index of refraction and the normal is turned round.
    pub open spec fn spec_orient(self, dot: Scalar, outward_normal: Vec3, inverse_ir: Scalar) -> (
        Scalar,
        Vec3,
    ) {
        if dot.spec_lt(Scalar { bits: 0 }) {
            (inverse_ir, outward_normal)
        } else {
            (self.ir, outward_normal.spec_neg())
        }
    }

    /// Whether a ray is mirrored rather than bent: it is where it cannot be
    /// bent, the product of the ratio of refraction and the sine of the angle
    /// of incidence being above one; and where the reflectance at its angle
    /// is above the number drawn for it.
    pub open spec fn spec_mirrors(ratio_times_sine: Scalar, reflectance: Scalar, draw: Scalar) -> bool {
        (Scalar { bits: ONE_BITS }).spec_lt(ratio_times_sine) || draw.spec_lt(reflectance)
    }

    /// The ratio of refraction and the normal against which a ray is bent.
    pub fn orient(&self, dot: Scalar, outward_normal: Vec3, inverse_ir: Scalar) -> (r: (
        Scalar,
        Vec3,
    ))
        ensures
            r == self.spec_orient(dot, outward_normal, inverse_ir),
    {
        if Ray::front_face(dot) {
            (inverse_ir, outward_normal)
        } else {
            (self.ir, outward_normal.neg())
        }
    }

    /// Whether a ray is mirrored rather than bent.
    pub fn mirrors(ratio_times_sine: Scalar, reflectance: Scalar, draw: Scalar) -> (r: bool)
        ensures
            r == Self::spec_mirrors(ratio_times_sine, reflectance, draw),
    {
        let cannot_refract = ratio_times_sine.gt(Scalar::one());
        cannot_refract || reflectance.gt(draw)
    }
}

impl Material {
    /// The texture of the material. A clear body has none.
    pub open spec fn texture(self) -> Option<Texture> {
        match self {
            Material::Labertian(m) => Some(m.texture),
            Material::Metal(m) => Some(m.texture),
            Material::Dielectric(_) => None,
            Material::EmissiveDiffuse(m) => Some(m.texture),
            Material::Isotropic(m) => Some(m.texture),
            Material::Glossy(m) => Some(m.texture),
        }
    }

    /// Whether `c` can be the light that the material gives off at a hit:
    /// for a light source a colour that `sample` can answer with for its
    /// texture at the hit, for every other material black.
    pub open spec fn emitted_outcome<T: Fn(&Texture, Uv, Vec3) -> Color>(
        self,
        inter: Intersection,
        sample: &T,
        c: Color,
    ) -> bool {
        match self {
            Material::EmissiveDiffuse(m) => call_ensures(
                sample,
                (&m.texture, inter.uv, inter.point),
                c,
            ),
            _ => c == color_of_bits(0, 0, 0),
        }
    }

    /// Whether `c` can be the base colour of the material at a point: for a
    /// clear body black, for every other material a colour that `sample` can
    /// answer with for its texture.
    pub open spec fn albedo_outcome<T: Fn(&Texture, Uv, Vec3) -> Color>(
        self,
        uv: Uv,
        point: Vec3,
        sample: &T,
        c: Color,
    ) -> bool {
        match self.texture() {
            Some(t) => call_ensures(sample, (&t, uv, point), c),
            None => c == color_of_bits(0, 0, 0),
        }
    }

    /// Whether a ray goes on as `onward`, weakened by a colour that `sample`
    /// can answer with for `texture` at the hit.
    pub open spec fn goes_on<T: Fn(&Texture, Uv, Vec3) -> Color>(
        r: Option<(Color, Ray)>,
        texture: Texture,
        inter: Intersection,
        sample: &T,
        onward: Ray,
    ) -> bool {
        match r {
            Some(pair) => call_ensures(sample, (&texture, inter.uv, inter.point), pair.0)
                && pair.1 == onward,
            None => false,
        }
    }

    /// Whether `r` can be what becomes of a ray at a hit, under the
    /// arithmetic `optics`.
    ///
    /// A light source absorbs every ray. A mirror absorbs the ray if the
    /// direction in which it would leave, mirrored and blurred, does not face
    /// outward. Every other ray goes on from the hit point at the time of the
    /// incoming ray, in the direction in which it leaves the surface. The ray
    /// that goes on is weakened by a colour that `sample` can answer with for
    /// the material's texture at the hit, and for a clear body not at all.
    pub open spec fn scatter_outcome<
        T: Fn(&Texture, Uv, Vec3) -> Color,
        LT: Fn(&Intersection) -> Vec3,
        DO: Fn(Vec3, Vec3) -> Scalar,
        MI: Fn(&Ray, &Intersection) -> Vec3,
        BL: Fn(Vec3, Scalar) -> Vec3,
        IV: Fn(Scalar) -> Scalar,
        BE: Fn(&Ray, Vec3, Scalar) -> Bending,
        AN: Fn() -> Vec3,
    >(
        self,
        ray: Ray,
        inter: Intersection,
        sample: &T,
        optics: &Optics<LT, DO, MI, BL, IV, BE, AN>,
        r: Option<(Color, Ray)>,
    ) -> bool {
        match self {
            Material::EmissiveDiffuse(_) => r is None,
            Material::Dielectric(_) => exists|b: Bounce| #[trigger]
                self.bounce_outcome(ray, inter, optics, b) && r == Some(
                    (
                        color_of_bits(ONE_BITS, ONE_BITS, ONE_BITS),
                        Ray { origin: inter.point, direction: b.direction, time: ray.time },
                    ),
                ),
            Material::Metal(m) => exists|b: Bounce| #[trigger]
                self.bounce_outcome(ray, inter, optics, b) && if (Scalar { bits: 0 }).spec_lt(
                    b.facing,
                ) {
                    Self::goes_on(
                        r,
                        m.texture,
                        inter,
                        sample,
                        Ray { origin: inter.point, direction: b.direction, time: ray.time },
                    )
                } else {
                    r is None
                },
            _ => exists|b: Bounce| #[trigger]
                self.bounce_outcome(ray, inter, optics, b) && Self::goes_on(
                    r,
                    self.texture()->0,
                    inter,
                    sample,
                    Ray { origin: inter.point, direction: b.direction, time: ray.time },
                ),
        }
    }

    /// The light that the material gives off at a hit.
    pub fn emitted<T: Fn(&Texture, Uv, Vec3) -> Color>(&self, inter: &Intersection, sample: &T) -> (c:
        Color)
        requires
            forall|t: &Texture, uv: Uv, p: Vec3| call_requires(sample, (t, uv, p)),
        ensures
            self.emitted_outcome(*inter, sample, c),
    {
        match self {
            Material::EmissiveDiffuse(m) => sample(&m.texture, inter.uv, inter.point),
            _ => Color::black(),
        }
    }

    /// The base colour of the material at a point.
    pub fn albedo<T: Fn(&Texture, Uv, Vec3) -> Color>(&self, uv: Uv, point: Vec3, sample: &T) -> (c:
        Color)
        requires
            forall|t: &Texture, uv: Uv, p: Vec3| call_requires(sample, (t, uv, p)),
        ensures
            self.albedo_outcome(uv, point, sample, c),
    {
        match self {
            Material::Labertian(m) => sample(&m.texture, uv, point),
            Material::Metal(m) => sample(&m.texture, uv, point),
            Material::Dielectric(_) => Color::black(),
            Material::EmissiveDiffuse(m) => sample(&m.texture, uv, point),
            Material::Isotropic(m) => sample(&m.texture, uv, point),
            Material::Glossy(m) => sample(&m.texture, uv, point),
        }
    }

    /// What becomes of a ray at a hit: nothing where it is absorbed, else the
    /// colour by which it is weakened and the ray that goes on.
    pub fn scatter<
        T: Fn(&Texture, Uv, Vec3) -> Color,
        LT: Fn(&Intersection) -> Vec3,
        DO: Fn(Vec3, Vec3) -> Scalar,
        MI: Fn(&Ray, &Intersection) -> Vec3,
        BL: Fn(Vec3, Scalar) -> Vec3,
        IV: Fn(Scalar) -> Scalar,
        BE: Fn(&Ray, Vec3, Scalar) -> Bending,
        AN: Fn() -> Vec3,
    >(&self, ray: &Ray, inter: &Intersection, sample: &T, optics: &Optics<LT, DO, MI, BL, IV, BE, AN>) -> (r: Option<
        (Color, Ray),
    >)
        requires
            forall|t: &Texture, uv: Uv, p: Vec3| call_requires(sample, (t, uv, p)),
            optics.usable(),
        ensures
            self.scatter_outcome(*ray, *inter, sample, optics, r),
    {
        match self {
            Material::EmissiveDiffuse(_) => None,
            Material::Dielectric(_) => {
                let b = self.bounce(ray, inter, optics);
                Some((Color::white(), Ray::new(inter.point, b.direction, ray.time)))
            },
            Material::Metal(m) => {
                let b = self.bounce(ray, inter, optics);
                if Metal::reflects_outward(b.facing) {
                    let attenuation = sample(&m.texture, inter.uv, inter.point);
                    Some((attenuation, Ray::new(inter.point, b.direction, ray.time)))
                } else {
                    None
                }
            },
            Material::Labertian(m) => {
                let b = self.bounce(ray, inter, optics);
                let attenuation = sample(&m.texture, inter.uv, inter.point);
                Some((attenuation, Ray::new(inter.point, b.direction, ray.time)))
            },
            Material::Isotropic(m) => {
                let b = self.bounce(ray, inter, optics);
                let attenuation = sample(&m.texture, inter.uv, inter.point);
                Some((attenuation, Ray::new(inter.point, b.direction, ray.time)))
            },
            Material::Glossy(m) => {
                let b = self.bounce(ray, inter, optics);
                let attenuation = sample(&m.texture, inter.uv, inter.point);
                Some((attenuation, Ray::new(inter.point, b.direction, ray.time)))
            },
        }
    }
}

/// A matte surface weakens a ray by no more than the colour of its texture:
/// whenever it sends a ray on, the colour by which the ray is weakened is one
/// that `sample` answers with for the surface's texture at the hit.
pub proof fn lemma_lambertian_attenuation_is_texture<
    T: Fn(&Texture, Uv, Vec3) -> Color,
    LT: Fn(&Intersection) -> Vec3,
    DO: Fn(Vec3, Vec3) -> Scalar,
    MI: Fn(&Ray, &Intersection) -> Vec3,
    BL: Fn(Vec3, Scalar) -> Vec3,
    IV: Fn(Scalar) -> Scalar,
    BE: Fn(&Ray, Vec3, Scalar) -> Bending,
    AN: Fn() -> Vec3,
>(
    m: Lambertian,
    ray: Ray,
    inter: Intersection,
    sample: &T,
    optics: &Optics<LT, DO, MI, BL, IV, BE, AN>,
    r: Option<(Color, Ray)>,
)
    requires
        Material::Labertian(m).scatter_outcome(ray, inter, sample, optics, r),
    ensures
        r matches Some(pair) && call_ensures(sample, (&m.texture, inter.uv, inter.point), pair.0)
            && pair.1.origin == inter.point && pair.1.time == ray.time,
{
}

/// A mirror sends a ray on if and only if the direction in which the ray
/// leaves, mirrored and blurred, has a positive dot product with the shading
/// normal; and the ray that is sent on goes in that direction.
pub proof fn lemma_mirror_rejects_what_points_inward<
    T: Fn(&Texture, Uv, Vec3) -> Color,
    LT: Fn(&Intersection) -> Vec3,
    DO: Fn(Vec3, Vec3) -> Scalar,
    MI: Fn(&Ray, &Intersection) -> Vec3,
    BL: Fn(Vec3, Scalar) -> Vec3,
    IV: Fn(Scalar) -> Scalar,
    BE: Fn(&Ray, Vec3, Scalar) -> Bending,
    AN: Fn() -> Vec3,
>(
    m: Metal,
    ray: Ray,
    inter: Intersection,
    sample: &T,
    optics: &Optics<LT, DO, MI, BL, IV, BE, AN>,
    r: Option<(Color, Ray)>,
)
    requires
        Material::Metal(m).scatter_outcome(ray, inter, sample, optics, r),
    ensures
        exists|mirrored: Vec3, blurred: Vec3, facing: Scalar|
            #![trigger call_ensures(optics.blur, (mirrored, m.fuzz), blurred), call_ensures(optics.dot, (blurred, inter.normal), facing)]
            call_ensures(optics.mirror, (&ray, &inter), mirrored) && call_ensures(
                optics.blur,
                (mirrored, m.fuzz),
                blurred,
            ) && call_ensures(optics.dot, (blurred, inter.normal), facing) && (r is Some <==> (
            Scalar { bits: 0 }).spec_lt(facing)) && (r matches Some(pair) ==> pair.1.direction
                == blurred),
{
    let b = choose|b: Bounce| #[trigger]
        Material::Metal(m).bounce_outcome(ray, inter, optics, b) && if (Scalar { bits: 0 }).spec_lt(
            b.facing,
        ) {
            Material::goes_on(
                r,
                m.texture,
                inter,
                sample,
                Ray { origin: inter.point, direction: b.direction, time: ray.time },
            )
        } else {
            r is None
        };
    let mirrored = choose|mirrored: Vec3| #[trigger]
        call_ensures(optics.mirror, (&ray, &inter), mirrored) && call_ensures(
            optics.blur,
            (mirrored, m.fuzz),
            b.direction,
        ) && call_ensures(optics.dot, (b.direction, inter.normal), b.facing);
    assert(call_ensures(optics.blur, (mirrored, m.fuzz), b.direction));
    assert(call_ensures(optics.dot, (b.direction, inter.normal), b.facing));
}

/// A matte surface sends a ray along the shading normal where the sum of the
/// normal and the random unit vector is near zero, and along that sum
/// elsewhere.
pub proof fn lemma_matte_falls_back_to_the_normal<
    T: Fn(&Texture, Uv, Vec3) -> Color,
    LT: Fn(&Intersection) -> Vec3,
    DO: Fn(Vec3, Vec3) -> Scalar,
    MI: Fn(&Ray, &Intersection) -> Vec3,
    BL: Fn(Vec3, Scalar) -> Vec3,
    IV: Fn(Scalar) -> Scalar,
    BE: Fn(&Ray, Vec3, Scalar) -> Bending,
    AN: Fn() -> Vec3,
>(
    m: Lambertian,
    ray: Ray,
    inter: Intersection,
    sample: &T,
    optics: &Optics<LT, DO, MI, BL, IV, BE, AN>,
    r: Option<(Color, Ray)>,
)
    requires
        Material::Labertian(m).scatter_outcome(ray, inter, sample, optics, r),
    ensures
        exists|candidate: Vec3| #[trigger]
            call_ensures(optics.toss, (&inter,), candidate) && (r matches Some(pair)
                && pair.1.direction == if near_zero(candidate) {
                inter.normal
            } else {
                candidate
            }),
{
    let b = choose|b: Bounce| #[trigger]
        Material::Labertian(m).bounce_outcome(ray, inter, optics, b) && Material::goes_on(
            r,
            Material::Labertian(m).texture()->0,
            inter,
            sample,
            Ray { origin: inter.point, direction: b.direction, time: ray.time },
        );
}

/// What the arithmetic finds for a ray that meets a clear body: the product
/// of the ratio of refraction and the sine of the angle of incidence, the
/// reflectance at that angle, a number drawn at random between zero and one,
/// and the two directions in which the ray can go on, mirrored and bent.
#[derive(Clone, Copy, Debug, PartialEq, Eq, Structural)]
pub struct Bending {
    pub ratio_times_sine: Scalar,
    pub reflectance: Scalar,
    pub draw: Scalar,
    pub mirrored: Vec3,
    pub bent: Vec3,
}

/// The arithmetic and the random draws of the materials, as the caller
/// provides them.
///
/// `toss` gives the sum of the shading normal and a random unit vector.
/// `dot` gives the dot product of two vectors. `mirror` gives the direction
/// of the ray mirrored at the shading normal. `blur` adds to a direction a
/// random unit vector scaled by a blur. `inverse` gives the inverse of a
/// number. `bend` finds what there is to know of a ray that meets a clear
/// body, given the normal against which it is bent and the ratio of
/// refraction. `any` gives a random unit vector.
pub struct Optics<LT, DO, MI, BL, IV, BE, AN> {
    pub toss: LT,
    pub dot: DO,
    pub mirror: MI,
    pub blur: BL,
    pub inverse: IV,
    pub bend: BE,
    pub any: AN,
}

impl<
        LT: Fn(&Intersection) -> Vec3,
        DO: Fn(Vec3, Vec3) -> Scalar,
        MI: Fn(&Ray, &Intersection) -> Vec3,
        BL: Fn(Vec3, Scalar) -> Vec3,
        IV: Fn(Scalar) -> Scalar,
        BE: Fn(&Ray, Vec3, Scalar) -> Bending,
        AN: Fn() -> Vec3,
    > Optics<LT, DO, MI, BL, IV, BE, AN> {
    /// Whether every part of the arithmetic may be called on everything.
    pub open spec fn usable(&self) -> bool {
        &&& forall|i: &Intersection| call_requires(self.toss, (i,))
        &&& forall|a: Vec3, b: Vec3| call_requires(self.dot, (a, b))
        &&& forall|r: &Ray, i: &Intersection| call_requires(self.mirror, (r, i))
        &&& forall|d: Vec3, fuzz: Scalar| call_requires(self.blur, (d, fuzz))
        &&& forall|x: Scalar| call_requires(self.inverse, (x,))
        &&& forall|r: &Ray, n: Vec3, ratio: Scalar| call_requires(self.bend, (r, n, ratio))
        &&& call_requires(self.any, ())
    }
}

impl Material {
    /// Whether `b` can be the way in which a ray leaves a surface of the
    /// material, under the arithmetic `optics`.
    ///
    /// A matte surface sends the ray in the direction that `toss` gives, the
    /// shading normal plus a random unit vector, or along the shading normal
    /// where that direction is near zero. A mirror sends it in the mirrored
    /// direction, blurred, and tells whether the blurred direction faces
    /// outward. A clear body is entered where the dot product of the ray's
    /// direction with the outward normal is negative and left elsewhere; the
    /// ray is mirrored where it cannot be bent or the reflectance is above
    /// the number drawn, and bent elsewhere. A medium sends the ray any way.
    /// A light source and a glossy surface send it along the shading normal.
    pub open spec fn bounce_outcome<
        LT: Fn(&Intersection) -> Vec3,
        DO: Fn(Vec3, Vec3) -> Scalar,
        MI: Fn(&Ray, &Intersection) -> Vec3,
        BL: Fn(Vec3, Scalar) -> Vec3,
        IV: Fn(Scalar) -> Scalar,
        BE: Fn(&Ray, Vec3, Scalar) -> Bending,
        AN: Fn() -> Vec3,
    >(
        self,
        ray: Ray,
        inter: Intersection,
        optics: &Optics<LT, DO, MI, BL, IV, BE, AN>,
        b: Bounce,
    ) -> bool {
        let one = Scalar { bits: ONE_BITS };
        match self {
            Material::Labertian(_) => exists|candidate: Vec3| #[trigger]
                call_ensures(optics.toss, (&inter,), candidate) && b.direction
                    == Lambertian::spec_scatter_direction(candidate, inter.normal) && b.facing
                    == one,
            Material::Metal(m) => exists|mirrored: Vec3| #[trigger]
                call_ensures(optics.mirror, (&ray, &inter), mirrored) && call_ensures(
                    optics.blur,
                    (mirrored, m.fuzz),
                    b.direction,
                ) && call_ensures(optics.dot, (b.direction, inter.normal), b.facing),
            Material::Dielectric(d) => exists|incidence: Scalar, inverse_ir: Scalar, bending: Bending|
                #![trigger
                    call_ensures(
                        optics.bend,
                        (
                            &ray,
                            d.spec_orient(incidence, inter.outward_normal, inverse_ir).1,
                            d.spec_orient(incidence, inter.outward_normal, inverse_ir).0,
                        ),
                        bending,
                    )
                ]
                call_ensures(optics.dot, (ray.direction, inter.outward_normal), incidence)
                    && call_ensures(optics.inverse, (d.ir,), inverse_ir) && call_ensures(
                    optics.bend,
                    (
                        &ray,
                        d.spec_orient(incidence, inter.outward_normal, inverse_ir).1,
                        d.spec_orient(incidence, inter.outward_normal, inverse_ir).0,
                    ),
                    bending,
                ) && b.direction == (if Dielectric::spec_mirrors(
                    bending.ratio_times_sine,
                    bending.reflectance,
                    bending.draw,
                ) {
                    bending.mirrored
                } else {
                    bending.bent
                }) && b.facing == one,
            Material::Isotropic(_) => call_ensures(optics.any, (), b.direction) && b.facing == one,
            _ => b.direction == inter.normal && b.facing == one,
        }
    }

    /// The way in which a ray leaves a surface of the material.
    pub fn bounce<
        LT: Fn(&Intersection) -> Vec3,
        DO: Fn(Vec3, Vec3) -> Scalar,
        MI: Fn(&Ray, &Intersection) -> Vec3,
        BL: Fn(Vec3, Scalar) -> Vec3,
        IV: Fn(Scalar) -> Scalar,
        BE: Fn(&Ray, Vec3, Scalar) -> Bending,
        AN: Fn() -> Vec3,
    >(
        &self,
        ray: &Ray,
        inter: &Intersection,
        optics: &Optics<LT, DO, MI, BL, IV, BE, AN>,
    ) -> (b: Bounce)
        requires
            optics.usable(),
        ensures
            self.bounce_outcome(*ray, *inter, optics, b),
    {
        match self {
            Material::Labertian(_) => {
                let candidate = (optics.toss)(inter);
                let direction = Lambertian::scatter_direction(candidate, inter.normal);
                Bounce { direction, facing: Scalar::one() }
            },
            Material::Metal(m) => {
                let mirrored = (optics.mirror)(ray, inter);
                let direction = (optics.blur)(mirrored, m.fuzz);
                let facing = (optics.dot)(direction, inter.normal);
                Bounce { direction, facing }
            },
            Material::Dielectric(d) => {
                let incidence = (optics.dot)(ray.direction, inter.outward_normal);
                let inverse_ir = (optics.inverse)(d.ir);
                let oriented = d.orient(incidence, inter.outward_normal, inverse_ir);
                let bending = (optics.bend)(ray, oriented.1, oriented.0);
                let direction = if Dielectric::mirrors(
                    bending.ratio_times_sine,
                    bending.reflectance,
                    bending.draw,
                ) {
                    bending.mirrored
                } else {
                    bending.bent
                };
                Bounce { direction, facing: Scalar::one() }
            },
            Material::Isotropic(_) => {
                let direction = (optics.any)();
                Bounce { direction, facing: Scalar::one() }
            },
            Material::EmissiveDiffuse(_) => Bounce { direction: inter.normal, facing: Scalar::one() },
            Material::Glossy(_) => Bounce { direction: inter.normal, facing: Scalar::one() },
        }
    }
}

} // verus!
