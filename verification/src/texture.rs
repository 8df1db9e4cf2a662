//! Textures: what colour a surface has at a point.

use vstd::prelude::*;
use crate::color::Color;
use crate::scalar::{Scalar, ONE_BITS};
use crate::vec3::Vec3;

verus! {

/// A surface coordinate pair.
#[derive(Clone, Copy, Debug, PartialEq, Eq, Structural)]
pub struct Uv {
    pub u: Scalar,
    pub v: Scalar,
}

/// The kinds of texture.
#[derive(Clone, Copy, Debug, PartialEq, Eq, Structural)]
pub enum Texture {
    SolidColor(SolidColor),
    CheckerBoard(CheckerBoard),
    Image(Image),
}

/// One colour everywhere.
#[derive(Clone, Copy, Debug, PartialEq, Eq, Structural)]
pub struct SolidColor {
    pub color: Color,
}

/// Two colours that alternate in space, cell by cell.
#[derive(Clone, Copy, Debug, PartialEq, Eq, Structural)]
pub struct CheckerBoard {
    pub color_1: Color,
    pub color_2: Color,
    pub scale: Scalar,
}

/// A raster of `width` by `height` texels, looked up by surface coordinate.
/// The texels are those of the raster at place `raster` in the list of
/// rasters that the scene keeps.
#[derive(Clone, Copy, Debug, PartialEq, Eq, Structural)]
pub struct Image {
    pub raster: usize,
    pub width: u32,
    pub height: u32,
}

/// The texels of an image: three bytes for each, red first, row by row.
#[derive(Clone, Debug)]
pub struct Raster {
    pub pixels: Vec<u8>,
    pub width: u32,
    pub height: u32,
}

impl SolidColor {
    pub fn new(color: Color) -> (t: Texture)
        ensures
            t == Texture::SolidColor(SolidColor { color }),
    {
        Texture::SolidColor(SolidColor { color })
    }

    /// The colour at any surface coordinate and any point.
    pub fn get_color_uv(&self) -> (c: Color)
        ensures
            c == self.color,
    {
        self.color
    }
}

impl CheckerBoard {
    pub fn new(color_1: Color, color_2: Color, scale: Scalar) -> (t: Texture)
        ensures
            t == Texture::CheckerBoard(CheckerBoard { color_1, color_2, scale }),
    {
        Texture::CheckerBoard(CheckerBoard { color_1, color_2, scale })
    }

    /// The colour of the cell in which the product of the three sines,
    /// `sines`, was taken: the first colour where the product is negative,
    /// the second elsewhere.
    pub open spec fn spec_cell_color(self, sines: Scalar) -> Color {
        if sines.spec_lt(Scalar { bits: 0 }) {
            self.color_1
        } else {
            self.color_2
        }
    }

    /// Chooses between the two colours by the sign of `sines`, the product of
    /// the sines of the scaled coordinates of a point.
    pub fn cell_color(&self, sines: Scalar) -> (c: Color)
        ensures
            c == self.spec_cell_color(sines),
    {
        if sines.lt(Scalar::zero()) {
            self.color_1
        } else {
            self.color_2
        }
    }
}

impl Image {
    /// The texel that a scaled coordinate pair falls on, by column and row:
    /// the first coordinate is held below the width, the second below the
    /// height.
    pub open spec fn spec_texel(self, i: u32, j: u32) -> (u32, u32) {
        (
            if i >= self.width { (self.width - 1) as u32 } else { i },
            if j >= self.height { (self.height - 1) as u32 } else { j },
        )
    }

    pub fn new(raster: usize, width: u32, height: u32) -> (t: Texture)
        ensures
            t == Texture::Image(Image { raster, width, height }),
    {
        Texture::Image(Image { raster, width, height })
    }

    /// The texel for a scaled coordinate pair. The pair is held within the
    /// extent of the texture, and the texel is read at the column given by
    /// the first coordinate and the row given by the second.
    pub fn get_pixel(&self, raster: &Raster, i: u32, j: u32) -> (rgb: (u8, u8, u8))
        requires
            raster.wf(),
            0 < self.width <= raster.width,
            0 < self.height <= raster.height,
        ensures
            rgb == raster.texel_at(self.spec_texel(i, j).0 as int, self.spec_texel(i, j).1 as int),
    {
        let place = self.texel(i, j);
        raster.get_pixel(place.0, place.1)
    }

    /// Holds a scaled coordinate pair within the raster.
    pub fn texel(&self, i: u32, j: u32) -> (r: (u32, u32))
        requires
            self.width > 0,
            self.height > 0,
        ensures
            r == self.spec_texel(i, j),
            r.0 < self.width,
            r.1 < self.height,
    {
        let i = if i >= self.width { self.width - 1 } else { i };
        let j = if j >= self.height { self.height - 1 } else { j };
        (i, j)
    }
}

impl Raster {
    /// The invariant of a raster: it holds three bytes for each texel.
    pub open spec fn wf(&self) -> bool {
        self.pixels.len() == 3 * self.width * self.height
    }

    /// The texel in column `x` of row `y`.
    pub open spec fn texel_at(&self, x: int, y: int) -> (u8, u8, u8) {
        let at = 3 * (y * self.width + x);
        (self.pixels[at], self.pixels[at + 1], self.pixels[at + 2])
    }

    /// Makes a raster of the bytes of an image, if there are three for each
    /// texel.
    pub fn new(pixels: Vec<u8>, width: u32, height: u32) -> (r: Option<Raster>)
        ensures
            r is Some <==> pixels.len() == 3 * width * height,
            r is Some ==> r->0.wf() && r->0.pixels == pixels && r->0.width == width && r->0.height
                == height,
    {
        assert(width * height <= 0xffff_ffff * 0xffff_ffff) by (nonlinear_arith)
            requires
                0 <= width <= 0xffff_ffff,
                0 <= height <= 0xffff_ffff,
        ;
        let texels: u64 = (width as u64) * (height as u64);
        assert(3 * (width * height) == 3 * width * height) by (nonlinear_arith);
        if texels > 0x5555_5555_5555_5555u64 {
            return None;
        }
        if (pixels.len() as u64) == 3 * texels {
            Some(Raster { pixels, width, height })
        } else {
            None
        }
    }

    /// Reads the texel in column `x` of row `y`.
    pub fn get_pixel(&self, x: u32, y: u32) -> (rgb: (u8, u8, u8))
        requires
            self.wf(),
            x < self.width,
            y < self.height,
        ensures
            rgb == self.texel_at(x as int, y as int),
    {
        assert(3 * (y * self.width + x) + 2 < 3 * self.width * self.height) by (nonlinear_arith)
            requires
                x < self.width,
                y < self.height,
        ;
        assert(y * self.width <= usize::MAX) by (nonlinear_arith)
            requires
                3 * (y * self.width + x) + 2 < usize::MAX,
                x >= 0,
                y >= 0,
                self.width >= 0,
        ;
        let at: usize = 3 * ((y as usize) * (self.width as usize) + (x as usize));
        (self.pixels[at], self.pixels[at + 1], self.pixels[at + 2])
    }
}

/// A number held between two others: no larger than `upper`, but no smaller
/// than `lower`.
pub open spec fn spec_clamp(value: Scalar, lower: Scalar, upper: Scalar) -> Scalar {
    value.spec_min(upper).spec_max(lower)
}

/// Holds a number between two others.
pub fn clamp(value: Scalar, lower: Scalar, upper: Scalar) -> (r: Scalar)
    ensures
        r == spec_clamp(value, lower, upper),
{
    value.min(upper).max(lower)
}

/// The arithmetic of the textures, as the caller provides it.
///
/// `sines` gives the product of the sines of the scaled coordinates of a
/// point. `scale` multiplies a number by a count. `complement` gives what a
/// number lacks of one. `tint` makes a colour of three bytes.
pub struct Paint<SI, SC, CO, TI> {
    pub sines: SI,
    pub scale: SC,
    pub complement: CO,
    pub tint: TI,
}

impl<
        SI: Fn(&CheckerBoard, Vec3) -> Scalar,
        SC: Fn(Scalar, u32) -> Scalar,
        CO: Fn(Scalar) -> Scalar,
        TI: Fn(u8, u8, u8) -> Color,
    > Paint<SI, SC, CO, TI> {
    /// Whether every part of the arithmetic may be called on everything.
    pub open spec fn usable(&self) -> bool {
        &&& forall|c: &CheckerBoard, p: Vec3| call_requires(self.sines, (c, p))
        &&& forall|x: Scalar, n: u32| call_requires(self.scale, (x, n))
        &&& forall|x: Scalar| call_requires(self.complement, (x,))
        &&& forall|r: u8, g: u8, b: u8| call_requires(self.tint, (r, g, b))
    }
}

impl Image {
    /// Whether the raster that the texture names is among `rasters` and is
    /// large enough for the texture.
    pub open spec fn fits(self, rasters: Seq<Raster>) -> bool {
        &&& self.raster < rasters.len()
        &&& rasters[self.raster as int].wf()
        &&& 0 < self.width <= rasters[self.raster as int].width
        &&& 0 < self.height <= rasters[self.raster as int].height
    }

    /// Whether `c` can be the colour of the texture at a surface coordinate.
    /// The first coordinate is held between zero and one and scaled by the
    /// width; the second is held between zero and one, turned round and
    /// scaled by the height; the integer parts of the two name the column
    /// and the row of the texel, whose three bytes `tint` makes a colour of.
    pub open spec fn color_outcome<
        SI: Fn(&CheckerBoard, Vec3) -> Scalar,
        SC: Fn(Scalar, u32) -> Scalar,
        CO: Fn(Scalar) -> Scalar,
        TI: Fn(u8, u8, u8) -> Color,
    >(
        self,
        uv: Uv,
        rasters: Seq<Raster>,
        paint: &Paint<SI, SC, CO, TI>,
        c: Color,
    ) -> bool {
        let zero = Scalar { bits: 0 };
        let one = Scalar { bits: ONE_BITS };
        exists|turned: Scalar, across: Scalar, down: Scalar|
            #![trigger
                call_ensures(paint.complement, (spec_clamp(uv.v, zero, one),), turned),
                call_ensures(paint.scale, (spec_clamp(uv.u, zero, one), self.width), across),
                call_ensures(paint.scale, (turned, self.height), down)
            ]
            call_ensures(paint.complement, (spec_clamp(uv.v, zero, one),), turned) && call_ensures(
                paint.scale,
                (spec_clamp(uv.u, zero, one), self.width),
                across,
            ) && call_ensures(paint.scale, (turned, self.height), down) && ({
                let place = self.spec_texel(across.spec_to_u32(), down.spec_to_u32());
                let texel = rasters[self.raster as int].texel_at(place.0 as int, place.1 as int);
                call_ensures(paint.tint, (texel.0, texel.1, texel.2), c)
            })
    }
}

impl Texture {
    /// Whether the texture can be looked up with `rasters`.
    pub open spec fn fits(self, rasters: Seq<Raster>) -> bool {
        match self {
            Texture::Image(i) => i.fits(rasters),
            _ => true,
        }
    }

    /// Whether `c` can be the colour of the texture at a surface coordinate
    /// and a point: the colour of a solid colour, the colour of the cell of
    /// a checkerboard in which the point lies, the colour of the texel of an
    /// image on which the surface coordinate falls.
    pub open spec fn color_outcome<
        SI: Fn(&CheckerBoard, Vec3) -> Scalar,
        SC: Fn(Scalar, u32) -> Scalar,
        CO: Fn(Scalar) -> Scalar,
        TI: Fn(u8, u8, u8) -> Color,
    >(
        self,
        uv: Uv,
        point: Vec3,
        rasters: Seq<Raster>,
        paint: &Paint<SI, SC, CO, TI>,
        c: Color,
    ) -> bool {
        match self {
            Texture::SolidColor(t) => c == t.color,
            Texture::CheckerBoard(t) => exists|product: Scalar| #[trigger]
                call_ensures(paint.sines, (&t, point), product) && c == t.spec_cell_color(product),
            Texture::Image(t) => t.color_outcome(uv, rasters, paint, c),
        }
    }

    /// The colour of the texture at a surface coordinate and a point.
    pub fn get_color_uv<
        SI: Fn(&CheckerBoard, Vec3) -> Scalar,
        SC: Fn(Scalar, u32) -> Scalar,
        CO: Fn(Scalar) -> Scalar,
        TI: Fn(u8, u8, u8) -> Color,
    >(
        &self,
        uv: Uv,
        point: Vec3,
        rasters: &Vec<Raster>,
        paint: &Paint<SI, SC, CO, TI>,
    ) -> (c: Color)
        requires
            self.fits(rasters@),
            paint.usable(),
        ensures
            self.color_outcome(uv, point, rasters@, paint, c),
    {
        match self {
            Texture::SolidColor(t) => t.get_color_uv(),
            Texture::CheckerBoard(t) => {
                let product = (paint.sines)(t, point);
                t.cell_color(product)
            },
            Texture::Image(t) => {
                let u = clamp(uv.u, Scalar::zero(), Scalar::one());
                let turned = (paint.complement)(clamp(uv.v, Scalar::zero(), Scalar::one()));
                let across = (paint.scale)(u, t.width);
                let down = (paint.scale)(turned, t.height);
                let texel = t.get_pixel(&rasters[t.raster], across.to_u32(), down.to_u32());
                (paint.tint)(texel.0, texel.1, texel.2)
            },
        }
    }

    /// Whether the texture can be looked up with `rasters`.
    pub fn is_fit(&self, rasters: &Vec<Raster>) -> (ok: bool)
        ensures
            ok == self.fits(rasters@),
    {
        match self {
            Texture::Image(t) => {
                if t.raster >= rasters.len() {
                    return false;
                }
                let raster = &rasters[t.raster];
                assert(raster.width * raster.height <= 0xffff_ffff * 0xffff_ffff) by (nonlinear_arith)
                    requires
                        0 <= raster.width <= 0xffff_ffff,
                        0 <= raster.height <= 0xffff_ffff,
                ;
                assert(3 * (raster.width * raster.height) == 3 * raster.width * raster.height)
                    by (nonlinear_arith);
                let texels: u64 = (raster.width as u64) * (raster.height as u64);
                texels <= 0x5555_5555_5555_5555u64 && (raster.pixels.len() as u64) == 3 * texels
                    && 0 < t.width && t.width <= raster.width && 0 < t.height && t.height
                    <= raster.height
            },
            _ => true,
        }
    }
}

} // verus!
