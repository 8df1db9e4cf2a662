//! The walk over the pixels of an image: row bands for parallel workers, the
//! order in which pixels are written, and the settings of the denoiser.

use vstd::prelude::*;
use crate::color::{color_of_bits, Color};

verus! {

/// A band of consecutive pixel rows: `rows` rows from `first_row` on.
#[derive(Clone, Copy, Debug, PartialEq, Eq, Structural)]
pub struct Band {
    pub first_row: u32,
    pub rows: u32,
}

/// What the denoiser is told about the image it is given.
#[derive(Clone, Copy, Debug, PartialEq, Eq, Structural)]
pub struct DenoiseSettings {
    pub srgb: bool,
    pub hdr: bool,
    pub clean_aux: bool,
}

/// The number of bands of `row_h` rows that an image of `height` rows is cut
/// into; the last band may be lower than the others.
pub open spec fn band_count(height: int, row_h: int) -> int {
    (height + row_h - 1) / row_h
}

/// The band at place `i`: it starts at row `i * row_h` and has `row_h` rows,
/// or as many as the image has left.
pub open spec fn band_at(height: int, row_h: int, i: int) -> Band {
    let first = i * row_h;
    Band {
        first_row: first as u32,
        rows: (if height - first < row_h {
            height - first
        } else {
            row_h
        }) as u32,
    }
}

impl Band {
    /// Whether the band holds row `y`.
    pub open spec fn holds_row(self, y: int) -> bool {
        self.first_row <= y < self.first_row + self.rows
    }

    /// Whether the band holds the pixel at place `p` of an image of `width`
    /// columns, pixels being counted row by row.
    pub open spec fn holds_pixel(self, width: int, p: int) -> bool {
        self.first_row * width <= p < (self.first_row + self.rows) * width
    }
}

/// The bands of an image, from the first row on.
pub fn row_bands(height: u32, row_h: u32) -> (bands: Vec<Band>)
    requires
        row_h > 0,
    ensures
        bands.len() == band_count(height as int, row_h as int),
        forall|i: int|
            0 <= i < bands.len() ==> #[trigger] bands[i] == band_at(
                height as int,
                row_h as int,
                i,
            ),
{
    let mut bands: Vec<Band> = Vec::new();
    let mut first: u32 = 0;
    proof {
        assert(band_count(0, row_h as int) == 0) by (nonlinear_arith)
            requires
                row_h > 0,
        ;
        assert(0 * row_h == 0) by (nonlinear_arith);
    }
    while first < height
        invariant
            row_h > 0,
            first <= height,
            first < height ==> first == bands.len() * row_h,
            first == height ==> bands.len() == band_count(height as int, row_h as int),
            forall|i: int|
                0 <= i < bands.len() ==> #[trigger] bands[i] == band_at(
                    height as int,
                    row_h as int,
                    i,
                ),
        decreases height - first,
    {
        let left = height - first;
        let rows = if left < row_h {
            left
        } else {
            row_h
        };
        let ghost count = bands.len() as int;
        proof {
            lemma_band_step(height as int, row_h as int, count);
        }
        bands.push(Band { first_row: first, rows });
        if left <= row_h {
            first = height;
        } else {
            first = first + row_h;
        }
    }
    bands
}

/// Where `count` bands end below the last row, there is a band more; and
/// where band `count` reaches the last row, it is the last band.
proof fn lemma_band_step(height: int, row_h: int, count: int)
    requires
        row_h > 0,
        count >= 0,
        count * row_h < height,
    ensures
        count < band_count(height, row_h),
        height - count * row_h <= row_h ==> count + 1 == band_count(height, row_h),
        height - count * row_h > row_h ==> (count + 1) * row_h < height,
        (count + 1) * row_h == count * row_h + row_h,
{
    assert((count + 1) * row_h == count * row_h + row_h) by (nonlinear_arith);
    vstd::arithmetic::div_mod::lemma_fundamental_div_mod(height + row_h - 1, row_h);
    let q = (height + row_h - 1) / row_h;
    let m = (height + row_h - 1) % row_h;
    assert(0 <= m < row_h) by {
        vstd::arithmetic::div_mod::lemma_mod_bound(height + row_h - 1, row_h);
    }
    assert(height + row_h - 1 == row_h * q + m);
    assert(count < q) by (nonlinear_arith)
        requires
            count * row_h < height,
            height + row_h - 1 == row_h * q + m,
            0 <= m < row_h,
            row_h > 0,
    ;
    if height - count * row_h <= row_h {
        assert(q <= count + 1) by (nonlinear_arith)
            requires
                height - count * row_h <= row_h,
                height + row_h - 1 == row_h * q + m,
                0 <= m < row_h,
                row_h > 0,
        ;
    }
}

/// The bands cover every row of the image exactly once: row `y` lies in the
/// band at place `y / row_h`, which is one of the bands, and in no other.
pub proof fn lemma_bands_cover_each_row_once(height: int, row_h: int, y: int, i: int)
    requires
        row_h > 0,
        0 <= y < height,
        height <= u32::MAX,
        0 <= i < band_count(height, row_h),
    ensures
        0 <= y / row_h < band_count(height, row_h),
        band_at(height, row_h, i).holds_row(y) <==> i == y / row_h,
{
    let q = y / row_h;
    vstd::arithmetic::div_mod::lemma_fundamental_div_mod(y, row_h);
    vstd::arithmetic::div_mod::lemma_mod_bound(y, row_h);
    let m = y % row_h;
    assert(y == row_h * q + m);
    assert(q >= 0) by (nonlinear_arith)
        requires
            y == row_h * q + m,
            0 <= m < row_h,
            y >= 0,
            row_h > 0,
    ;
    assert(q * row_h <= y) by (nonlinear_arith)
        requires
            y == row_h * q + m,
            0 <= m,
    ;
    lemma_band_step(height, row_h, q);
    vstd::arithmetic::div_mod::lemma_fundamental_div_mod(height + row_h - 1, row_h);
    vstd::arithmetic::div_mod::lemma_mod_bound(height + row_h - 1, row_h);
    let n = band_count(height, row_h);
    let r = (height + row_h - 1) % row_h;
    assert(i * row_h < height) by (nonlinear_arith)
        requires
            0 <= i < n,
            height + row_h - 1 == row_h * n + r,
            0 <= r < row_h,
            row_h > 0,
    ;
    let first = i * row_h;
    let band = band_at(height, row_h, i);
    assert(band.first_row == first);
    if i < q {
        assert(first + row_h <= y) by (nonlinear_arith)
            requires
                first == i * row_h,
                i < q,
                q * row_h <= y,
                row_h > 0,
        ;
    } else if i > q {
        assert(first > y) by (nonlinear_arith)
            requires
                first == i * row_h,
                i > q,
                y == row_h * q + m,
                0 <= m < row_h,
                row_h > 0,
        ;
    } else {
        assert(first == q * row_h);
        assert(y < first + row_h);
    }
}

/// The bands cover every pixel of the image exactly once: the pixel in
/// column `x` of row `y` lies in the band that holds row `y`, and in no
/// other.
pub proof fn lemma_bands_cover_each_pixel_once(
    width: int,
    height: int,
    row_h: int,
    x: int,
    y: int,
    i: int,
)
    requires
        row_h > 0,
        0 <= x < width,
        0 <= y < height,
        height <= u32::MAX,
        0 <= i < band_count(height, row_h),
    ensures
        0 <= y / row_h < band_count(height, row_h),
        band_at(height, row_h, i).holds_pixel(width, y * width + x) <==> i == y / row_h,
{
    lemma_bands_cover_each_row_once(height, row_h, y, i);
    let band = band_at(height, row_h, i);
    let lo = band.first_row as int;
    let hi = band.first_row + band.rows;
    if band.holds_row(y) {
        assert(lo * width <= y * width + x < hi * width) by (nonlinear_arith)
            requires
                lo <= y < hi,
                0 <= x < width,
        ;
    } else if y < lo {
        assert(y * width + x < lo * width) by (nonlinear_arith)
            requires
                y < lo,
                0 <= x < width,
        ;
    } else {
        assert(y * width + x >= hi * width) by (nonlinear_arith)
            requires
                y >= hi,
                0 <= x < width,
        ;
    }
}

/// The column and the row of the pixel at place `i` of an image of `width`
/// columns, pixels being counted row by row.
pub fn pixel_of_index(i: u32, width: u32) -> (r: (u32, u32))
    requires
        width > 0,
    ensures
        r.0 == i % width,
        r.1 == i / width,
        r.0 < width,
        r.1 * width + r.0 == i,
{
    proof {
        vstd::arithmetic::div_mod::lemma_fundamental_div_mod(i as int, width as int);
        assert((i / width) * width == width * (i / width)) by (nonlinear_arith);
    }
    (i % width, i / width)
}

/// The image row in which a rendered row is stored: rows are rendered from
/// the bottom of the picture up and stored from its top down.
pub fn flipped_row(y: u32, height: u32) -> (r: u32)
    requires
        y < height,
    ensures
        r == height - 1 - y,
        r < height,
{
    height - 1 - y
}

/// The row that is painted as the `k`-th of a run of rows that starts at row
/// `first` and goes up, or else down.
pub open spec fn row_at(first: int, upward: bool, k: int) -> int {
    if upward {
        first + k
    } else {
        first - k
    }
}

/// Whether `bytes` are the pixels `colors`, three bytes each, and each pixel
/// is what `pixel` can answer for its column and row: the pixels are counted
/// row by row through a run of rows of `width` columns that starts at row
/// `first`.
pub open spec fn painted<P: Fn(u32, u32) -> [u8; 3]>(
    first: int,
    upward: bool,
    width: int,
    pixel: &P,
    colors: Seq<[u8; 3]>,
    bytes: Seq<u8>,
) -> bool {
    &&& bytes.len() == 3 * colors.len()
    &&& forall|p: int|
        0 <= p < colors.len() ==> {
            &&& call_ensures(
                pixel,
                ((p % width) as u32, row_at(first, upward, p / width) as u32),
                #[trigger] colors[p],
            )
            &&& bytes[3 * p] == colors[p]@[0]
            &&& bytes[3 * p + 1] == colors[p]@[1]
            &&& bytes[3 * p + 2] == colors[p]@[2]
        }
}

/// Whether `bytes` can be the picture of `rows` rows of `width` columns,
/// painted with `pixel` from row `first` on, upward or else downward.
pub open spec fn picture_outcome<P: Fn(u32, u32) -> [u8; 3]>(
    first: int,
    rows: int,
    upward: bool,
    width: int,
    pixel: &P,
    bytes: Seq<u8>,
) -> bool {
    exists|colors: Seq<[u8; 3]>| #[trigger]
        painted(first, upward, width, pixel, colors, bytes) && colors.len() == rows * width
}

fn paint<P: Fn(u32, u32) -> [u8; 3]>(first: u32, rows: u32, upward: bool, width: u32, pixel: &P) -> (bytes:
    Vec<u8>)
    requires
        upward ==> first + rows <= u32::MAX,
        !upward ==> rows <= first + 1,
        3 * rows * width <= usize::MAX,
        forall|x: u32, y: u32| call_requires(pixel, (x, y)),
    ensures
        picture_outcome(first as int, rows as int, upward, width as int, pixel, bytes@),
        bytes.len() == 3 * rows * width,
{
    let mut bytes: Vec<u8> = Vec::new();
    let ghost mut colors: Seq<[u8; 3]> = Seq::empty();
    let mut k: u32 = 0;
    proof {
        assert(0 * width == 0) by (nonlinear_arith);
    }
    while k < rows
        invariant
            k <= rows,
            upward ==> first + rows <= u32::MAX,
            !upward ==> rows <= first + 1,
            3 * rows * width <= usize::MAX,
            forall|x: u32, y: u32| call_requires(pixel, (x, y)),
            colors.len() == k * width,
            painted(first as int, upward, width as int, pixel, colors, bytes@),
        decreases rows - k,
    {
        let y: u32 = if upward {
            first + k
        } else {
            first - k
        };
        let mut x: u32 = 0;
        while x < width
            invariant
                k < rows,
                x <= width,
                y == row_at(first as int, upward, k as int),
                3 * rows * width <= usize::MAX,
                forall|x: u32, y: u32| call_requires(pixel, (x, y)),
                colors.len() == k * width + x,
                painted(first as int, upward, width as int, pixel, colors, bytes@),
            decreases width - x,
        {
            let color = pixel(x, y);
            let ghost p = colors.len() as int;
            let ghost before = (colors, bytes@);
            proof {
                vstd::arithmetic::div_mod::lemma_fundamental_div_mod_converse(
                    p,
                    width as int,
                    k as int,
                    x as int,
                );
                assert(3 * (k * width + x) + 3 <= 3 * rows * width) by (nonlinear_arith)
                    requires
                        k < rows,
                        x < width,
                ;
            }
            bytes.push(color[0]);
            bytes.push(color[1]);
            bytes.push(color[2]);
            proof {
                colors = colors.push(color);
                assert forall|q: int| 0 <= q < colors.len() implies {
                    &&& call_ensures(
                        pixel,
                        (
                            (q % (width as int)) as u32,
                            row_at(first as int, upward, q / (width as int)) as u32,
                        ),
                        #[trigger] colors[q],
                    )
                    &&& bytes@[3 * q] == colors[q]@[0]
                    &&& bytes@[3 * q + 1] == colors[q]@[1]
                    &&& bytes@[3 * q + 2] == colors[q]@[2]
                } by {
                    if q < p {
                        assert(colors[q] == before.0[q]);
                        assert(bytes@[3 * q] == before.1[3 * q]);
                        assert(bytes@[3 * q + 1] == before.1[3 * q + 1]);
                        assert(bytes@[3 * q + 2] == before.1[3 * q + 2]);
                    }
                }
            }
            x += 1;
        }
        proof {
            assert((k + 1) * width == k * width + width) by (nonlinear_arith);
        }
        k += 1;
    }
    proof {
        assert(3 * (rows * width) == 3 * rows * width) by (nonlinear_arith);
    }
    bytes
}

/// The pixels of a band: `h` rows of `width` columns from row `j` on, each
/// pixel painted with `pixel` and written as three bytes, row by row.
pub fn render_slab<P: Fn(u32, u32) -> [u8; 3]>(j: u32, h: u32, width: u32, pixel: &P) -> (bytes:
    Vec<u8>)
    requires
        j + h <= u32::MAX,
        3 * h * width <= usize::MAX,
        forall|x: u32, y: u32| call_requires(pixel, (x, y)),
    ensures
        picture_outcome(j as int, h as int, true, width as int, pixel, bytes@),
        bytes.len() == 3 * h * width,
{
    paint(j, h, true, width, pixel)
}

/// The pixels of a whole image of `width` columns and `height` rows, each
/// painted with `pixel` and written as three bytes. The rows are written
/// from the last one down to the first, so that what is rendered from the
/// bottom up is stored from the top down.
pub fn render_image<P: Fn(u32, u32) -> [u8; 3]>(width: u32, height: u32, pixel: &P) -> (bytes:
    Vec<u8>)
    requires
        3 * height * width <= usize::MAX,
        forall|x: u32, y: u32| call_requires(pixel, (x, y)),
    ensures
        height > 0 ==> picture_outcome(
            height - 1,
            height as int,
            false,
            width as int,
            pixel,
            bytes@,
        ),
        bytes.len() == 3 * height * width,
{
    if height == 0 {
        proof {
            assert(3 * 0 * width == 0) by (nonlinear_arith);
        }
        Vec::new()
    } else {
        paint(height - 1, height, false, width, pixel)
    }
}

/// Two runs of rows, the second starting where the first ends, make one run:
/// the bytes of the first followed by the bytes of the second are a picture
/// of the rows of both.
pub proof fn lemma_pictures_join<P: Fn(u32, u32) -> [u8; 3]>(
    first: int,
    rows_a: int,
    rows_b: int,
    width: int,
    pixel: &P,
    a: Seq<u8>,
    b: Seq<u8>,
)
    requires
        0 <= rows_a,
        0 <= rows_b,
        0 <= width,
        picture_outcome(first, rows_a, true, width, pixel, a),
        picture_outcome(first + rows_a, rows_b, true, width, pixel, b),
    ensures
        picture_outcome(first, rows_a + rows_b, true, width, pixel, a + b),
{
    let colors_a = choose|colors: Seq<[u8; 3]>| #[trigger]
        painted(first, true, width, pixel, colors, a) && colors.len() == rows_a * width;
    let colors_b = choose|colors: Seq<[u8; 3]>| #[trigger]
        painted(first + rows_a, true, width, pixel, colors, b) && colors.len() == rows_b * width;
    let colors = colors_a + colors_b;
    let bytes = a + b;
    assert((rows_a + rows_b) * width == rows_a * width + rows_b * width) by (nonlinear_arith);
    assert forall|p: int| 0 <= p < colors.len() implies {
        &&& call_ensures(
            pixel,
            ((p % width) as u32, row_at(first, true, p / width) as u32),
            #[trigger] colors[p],
        )
        &&& bytes[3 * p] == colors[p]@[0]
        &&& bytes[3 * p + 1] == colors[p]@[1]
        &&& bytes[3 * p + 2] == colors[p]@[2]
    } by {
        if p < colors_a.len() {
            assert(colors[p] == colors_a[p]);
            assert(bytes[3 * p] == a[3 * p]);
            assert(bytes[3 * p + 1] == a[3 * p + 1]);
            assert(bytes[3 * p + 2] == a[3 * p + 2]);
        } else {
            let q = p - colors_a.len();
            assert(colors[p] == colors_b[q]);
            assert(bytes[3 * p] == b[3 * q]);
            assert(bytes[3 * p + 1] == b[3 * q + 1]);
            assert(bytes[3 * p + 2] == b[3 * q + 2]);
            assert(width > 0) by (nonlinear_arith)
                requires
                    0 <= q < rows_b * width,
                    0 <= width,
            ;
            vstd::arithmetic::div_mod::lemma_fundamental_div_mod(q, width);
            vstd::arithmetic::div_mod::lemma_mod_bound(q, width);
            assert(p == width * (rows_a + q / width) + q % width) by (nonlinear_arith)
                requires
                    p == rows_a * width + q,
                    q == width * (q / width) + q % width,
            ;
            vstd::arithmetic::div_mod::lemma_fundamental_div_mod_converse(
                p,
                width,
                rows_a + q / width,
                q % width,
            );
            assert(row_at(first, true, p / width) == row_at(first + rows_a, true, q / width));
        }
    }
    assert(painted(first, true, width, pixel, colors, bytes));
}

/// The pixels of a whole image of `width` columns and `height` rows, band by
/// band from the first row on: what the bands of `row_h` rows give, one
/// after the other, is the picture of all rows.
pub fn render_bands<P: Fn(u32, u32) -> [u8; 3]>(height: u32, row_h: u32, width: u32, pixel: &P) -> (bytes:
    Vec<u8>)
    requires
        row_h > 0,
        3 * height * width <= usize::MAX,
        forall|x: u32, y: u32| call_requires(pixel, (x, y)),
    ensures
        picture_outcome(0, height as int, true, width as int, pixel, bytes@),
        bytes.len() == 3 * height * width,
{
    let bands = row_bands(height, row_h);
    let mut bytes: Vec<u8> = Vec::new();
    let mut i: usize = 0;
    let ghost mut done: int = 0;
    proof {
        assert(painted(0, true, width as int, pixel, Seq::<[u8; 3]>::empty(), bytes@));
        assert(0 * width == 0) by (nonlinear_arith);
        assert(3 * 0 * width == 0) by (nonlinear_arith);
        assert(0 * row_h == 0) by (nonlinear_arith);
        if height == 0 {
            assert(band_count(0, row_h as int) == 0) by (nonlinear_arith)
                requires
                    row_h > 0,
            ;
        } else {
            lemma_band_step(height as int, row_h as int, 0);
        }
    }
    while i < bands.len()
        invariant
            row_h > 0,
            i <= bands.len(),
            bands.len() == band_count(height as int, row_h as int),
            forall|k: int|
                0 <= k < bands.len() ==> #[trigger] bands[k] == band_at(
                    height as int,
                    row_h as int,
                    k,
                ),
            3 * height * width <= usize::MAX,
            forall|x: u32, y: u32| call_requires(pixel, (x, y)),
            0 <= done <= height,
            i < bands.len() ==> done == i * row_h,
            i == bands.len() ==> done == height,
            picture_outcome(0, done, true, width as int, pixel, bytes@),
            bytes.len() == 3 * done * width,
        decreases bands.len() - i,
    {
        let band = bands[i];
        proof {
            lemma_band_reaches(height as int, row_h as int, i as int);
            assert(3 * band.rows * width <= 3 * height * width) by (nonlinear_arith)
                requires
                    0 <= band.rows <= height,
                    0 <= width,
            ;
        }
        let mut slab = render_slab(band.first_row, band.rows, width, pixel);
        proof {
            lemma_pictures_join(
                0,
                done,
                band.rows as int,
                width as int,
                pixel,
                bytes@,
                slab@,
            );
            assert(3 * (done + band.rows) * width == 3 * done * width + 3 * band.rows * width)
                by (nonlinear_arith);
            done = done + band.rows;
        }
        bytes.append(&mut slab);
        i += 1;
    }
    bytes
}

/// The band at place `i` starts at row `i * row_h`, lies within the image,
/// and ends where the next band starts, or at the last row if it is the last
/// band.
proof fn lemma_band_reaches(height: int, row_h: int, i: int)
    requires
        row_h > 0,
        0 <= height <= u32::MAX,
        0 <= i < band_count(height, row_h),
    ensures
        band_at(height, row_h, i).first_row == i * row_h,
        i * row_h < height,
        band_at(height, row_h, i).first_row + band_at(height, row_h, i).rows <= height,
        band_at(height, row_h, i).rows <= height,
        i + 1 < band_count(height, row_h) ==> band_at(height, row_h, i).first_row + band_at(
            height,
            row_h,
            i,
        ).rows == (i + 1) * row_h,
        i + 1 == band_count(height, row_h) ==> band_at(height, row_h, i).first_row + band_at(
            height,
            row_h,
            i,
        ).rows == height,
{
    vstd::arithmetic::div_mod::lemma_fundamental_div_mod(height + row_h - 1, row_h);
    vstd::arithmetic::div_mod::lemma_mod_bound(height + row_h - 1, row_h);
    let n = band_count(height, row_h);
    let r = (height + row_h - 1) % row_h;
    assert(i * row_h < height && i * row_h >= 0) by (nonlinear_arith)
        requires
            0 <= i < n,
            height + row_h - 1 == row_h * n + r,
            0 <= r < row_h,
            row_h > 0,
    ;
    lemma_band_step(height, row_h, i);
    if height - i * row_h > row_h {
        lemma_band_step(height, row_h, i + 1);
    }
    if i + 1 < n {
        assert((i + 1) * row_h < height) by (nonlinear_arith)
            requires
                0 <= i + 1 < n,
                height + row_h - 1 == row_h * n + r,
                0 <= r < row_h,
                row_h > 0,
        ;
    }
}

/// A picture of three bytes to the pixel with its rows in the opposite
/// order: what stood in row `y` stands in row `height - 1 - y`.
pub open spec fn flipped(bytes: Seq<u8>, width: int, height: int) -> Seq<u8> {
    Seq::new(
        bytes.len(),
        |i: int| bytes[(height - 1 - i / (3 * width)) * (3 * width) + i % (3 * width)],
    )
}

/// Turns a picture upside down.
///
/// Calls `image::imageops::flip_vertical` on an `image::RgbImage` made of the
/// bytes with `ImageBuffer::from_raw`, and takes the bytes of what comes
/// back with `into_raw`. `flip_vertical` makes a new picture of the same size
/// and puts every pixel of row `y` into row `height - 1 - y` at its column,
/// which is what the contract says. `from_raw` gives no picture where the
/// bytes are too few, which `requires` rules out.
#[verifier::external_body]
fn flip_rows(bytes: Vec<u8>, width: u32, height: u32) -> (turned: Vec<u8>)
    requires
        bytes.len() == 3 * width * height,
    ensures
        turned@ == flipped(bytes@, width as int, height as int),
{
    let picture = image::RgbImage::from_raw(width, height, bytes).unwrap();
    image::imageops::flip_vertical(&picture).into_raw()
}

/// Turns a picture of `width` columns and `height` rows upside down. There
/// is no answer where the bytes are not three for each pixel.
pub fn flip_vertical(bytes: Vec<u8>, width: u32, height: u32) -> (turned: Option<Vec<u8>>)
    ensures
        turned is Some <==> bytes.len() == 3 * width * height,
        turned is Some ==> turned->0@ == flipped(bytes@, width as int, height as int),
{
    assert(width * height <= 0xffff_ffff * 0xffff_ffff) by (nonlinear_arith)
        requires
            0 <= width <= 0xffff_ffff,
            0 <= height <= 0xffff_ffff,
    ;
    assert(3 * (width * height) == 3 * width * height) by (nonlinear_arith);
    let pixels: u64 = (width as u64) * (height as u64);
    if pixels <= 0x5555_5555_5555_5555u64 && (bytes.len() as u64) == 3 * pixels {
        Some(flip_rows(bytes, width, height))
    } else {
        None
    }
}

/// A picture turned upside down twice is the picture.
pub proof fn lemma_flipped_twice(bytes: Seq<u8>, width: int, height: int)
    requires
        0 <= width,
        0 <= height,
        bytes.len() == 3 * width * height,
    ensures
        flipped(flipped(bytes, width, height), width, height) == bytes,
{
    let once = flipped(bytes, width, height);
    let twice = flipped(once, width, height);
    let row = 3 * width;
    assert forall|i: int| 0 <= i < bytes.len() implies twice[i] == bytes[i] by {
        assert(width > 0 && height > 0) by (nonlinear_arith)
            requires
                0 <= i < 3 * width * height,
                0 <= width,
                0 <= height,
        ;
        let r = i / row;
        let c = i % row;
        vstd::arithmetic::div_mod::lemma_fundamental_div_mod(i, row);
        vstd::arithmetic::div_mod::lemma_mod_bound(i, row);
        assert(0 <= r < height) by (nonlinear_arith)
            requires
                i == row * r + c,
                0 <= c < row,
                0 <= i < row * height,
        {
        }
        let j = (height - 1 - r) * row + c;
        assert(0 <= j < row * height) by (nonlinear_arith)
            requires
                j == (height - 1 - r) * row + c,
                0 <= r < height,
                0 <= c < row,
        ;
        assert(row * height == 3 * width * height) by (nonlinear_arith)
            requires
                row == 3 * width,
        ;
        vstd::arithmetic::div_mod::lemma_fundamental_div_mod_converse(j, row, height - 1 - r, c);
        assert(twice[i] == once[j]);
        assert(once[j] == bytes[(height - 1 - (height - 1 - r)) * row + c]);
        assert((height - 1 - (height - 1 - r)) * row + c == i) by (nonlinear_arith)
            requires
                i == row * r + c,
        ;
    }
    assert(twice =~= bytes);
}

/// The sum so far and the light of the next sample. It holds of every such
/// pair, and serves to name the pair.
pub open spec fn sample_step(before: Color, light: Color) -> bool {
    true
}

/// Whether `total` can be the sum of the light of `n` samples of the pixel in
/// column `x` of row `y`: nothing for no sample, and else what `sum` makes of
/// a sum of one sample fewer and the light that `cast` brings for one sample
/// more.
pub open spec fn sum_outcome<C: Fn(u32, u32) -> Color, A: Fn(Color, Color) -> Color>(
    x: u32,
    y: u32,
    n: nat,
    cast: &C,
    sum: &A,
    total: Color,
) -> bool
    decreases n,
{
    if n == 0 {
        total == color_of_bits(0, 0, 0)
    } else {
        exists|before: Color, light: Color|
            #[trigger] sample_step(before, light) && sum_outcome(
                x,
                y,
                (n - 1) as nat,
                cast,
                sum,
                before,
            ) && call_ensures(cast, (x, y), light) && call_ensures(sum, (before, light), total)
    }
}

/// Whether `bytes` can be the pixel in column `x` of row `y`: the sum of the
/// light of `samples_per_pixel` samples, made a colour in the range of a byte
/// by `tone`, and cut to bytes.
pub open spec fn pixel_outcome<
    C: Fn(u32, u32) -> Color,
    A: Fn(Color, Color) -> Color,
    T: Fn(Color, u32) -> Color,
>(x: u32, y: u32, samples_per_pixel: u32, cast: &C, sum: &A, tone: &T, bytes: Seq<u8>) -> bool {
    exists|total: Color, toned: Color|
        #![trigger sum_outcome(x, y, samples_per_pixel as nat, cast, sum, total), call_ensures(tone, (total, samples_per_pixel), toned)]
        sum_outcome(x, y, samples_per_pixel as nat, cast, sum, total) && call_ensures(
            tone,
            (total, samples_per_pixel),
            toned,
        ) && bytes == seq![
            Color::byte_of(toned.r),
            Color::byte_of(toned.g),
            Color::byte_of(toned.b),
        ]
}

/// One pixel of the picture: `samples_per_pixel` samples are cast, their
/// light is added up, and the sum is made three bytes. `cast` brings the
/// light of one sample, `sum` adds two colours, and `tone` makes of the sum
/// and the number of samples a colour in the range of a byte.
pub fn render_pixel<
    C: Fn(u32, u32) -> Color,
    A: Fn(Color, Color) -> Color,
    T: Fn(Color, u32) -> Color,
>(x: u32, y: u32, samples_per_pixel: u32, cast: &C, sum: &A, tone: &T) -> (bytes: [u8; 3])
    requires
        forall|x: u32, y: u32| call_requires(cast, (x, y)),
        forall|a: Color, b: Color| call_requires(sum, (a, b)),
        forall|c: Color, n: u32| call_requires(tone, (c, n)),
    ensures
        pixel_outcome(x, y, samples_per_pixel, cast, sum, tone, bytes@),
{
    let mut total = Color::black();
    let mut k: u32 = 0;
    while k < samples_per_pixel
        invariant
            k <= samples_per_pixel,
            forall|x: u32, y: u32| call_requires(cast, (x, y)),
            forall|a: Color, b: Color| call_requires(sum, (a, b)),
            sum_outcome(x, y, k as nat, cast, sum, total),
        decreases samples_per_pixel - k,
    {
        let light = cast(x, y);
        let ghost before = total;
        total = sum(total, light);
        assert(sample_step(before, light));
        k += 1;
    }
    let toned = tone(total, samples_per_pixel);
    toned.to_slice()
}

} // verus!
