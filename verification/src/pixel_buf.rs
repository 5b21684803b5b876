//! The pixel buffer: a dense grid of colours that serves as the canvas, and
//! as the pixel grid of a glyph.

use vstd::prelude::*;
use vstd::arithmetic::div_mod::{lemma_fundamental_div_mod, lemma_fundamental_div_mod_converse};
use crate::color::Rgba;
use crate::coordinate::Coordinate;

verus! {

/// Width of the screen canvas in pixels.
pub const WIDTH: u32 = 2000;

/// Height of the screen canvas in pixels.
pub const HEIGHT: u32 = 1000;

/// What a pixel buffer holds: `width` columns, `height` rows, and the pixels
/// row by row, the pixel at column `x` of row `y` at index `y * width + x`.
pub struct PixelGrid {
    pub width: nat,
    pub height: nat,
    pub pixels: Seq<Rgba>,
}

impl PixelGrid {
    /// There is one pixel for each position.
    pub open spec fn wf(self) -> bool {
        self.pixels.len() == self.width * self.height
    }

    /// The grid of the given extents with every pixel of one colour.
    pub open spec fn filled(width: nat, height: nat, color: Rgba) -> PixelGrid {
        PixelGrid { width, height, pixels: Seq::new(width * height, |i: int| color) }
    }

    /// Whether column `x` of row `y` lies on the grid.
    pub open spec fn contains(self, x: int, y: int) -> bool {
        0 <= x < self.width && 0 <= y < self.height
    }

    /// The column of the pixel at index `i`.
    pub open spec fn column_of(self, i: int) -> int {
        i % self.width as int
    }

    /// The row of the pixel at index `i`.
    pub open spec fn row_of(self, i: int) -> int {
        i / self.width as int
    }

    /// The pixel at column `x` of row `y`.
    pub open spec fn pixel(self, x: int, y: int) -> Rgba {
        self.pixels[y * self.width + x]
    }

    /// The grid after `color` was composited onto the pixel at column `x` of
    /// row `y`: that pixel is blended, every other pixel stays, and a
    /// position off the grid changes nothing.
    pub open spec fn set_pixel(self, x: int, y: int, color: Rgba) -> PixelGrid {
        if self.contains(x, y) {
            PixelGrid {
                width: self.width,
                height: self.height,
                pixels: self.pixels.update(
                    y * self.width + x,
                    self.pixel(x, y).blend_spec(color),
                ),
            }
        } else {
            self
        }
    }

    /// Whether two grids show the same image: the same extents, and in each
    /// pixel the same red, green and blue. The alpha of a pixel on a grid
    /// does not show.
    pub open spec fn same_image(self, other: PixelGrid) -> bool {
        &&& self.width == other.width
        &&& self.height == other.height
        &&& self.pixels.len() == other.pixels.len()
        &&& forall|i: int|
            0 <= i < self.pixels.len() ==> {
                &&& (#[trigger] self.pixels[i]).r == other.pixels[i].r
                &&& self.pixels[i].g == other.pixels[i].g
                &&& self.pixels[i].b == other.pixels[i].b
            }
    }

    /// The bytes handed to the presentation surface: for each pixel, in row
    /// order, its red, green and blue, and then 255, whatever the pixel's
    /// alpha is.
    pub open spec fn bytes(self) -> Seq<u8> {
        Seq::new(
            4 * self.pixels.len(),
            |k: int|
                if k % 4 == 0 {
                    self.pixels[k / 4].r
                } else if k % 4 == 1 {
                    self.pixels[k / 4].g
                } else if k % 4 == 2 {
                    self.pixels[k / 4].b
                } else {
                    255u8
                },
        )
    }
}

/// On a well-formed grid every index splits into a column and a row on the
/// grid, and the two give the index back.
pub proof fn lemma_index_split(grid: PixelGrid, i: int)
    requires
        grid.wf(),
        0 <= i < grid.pixels.len(),
    ensures
        grid.contains(grid.column_of(i), grid.row_of(i)),
        grid.row_of(i) * grid.width + grid.column_of(i) == i,
{
    let w = grid.width as int;
    let h = grid.height as int;
    assert(w > 0) by (nonlinear_arith)
        requires
            0 <= i < w * h,
            0 <= w,
    ;
    lemma_fundamental_div_mod(i, w);
    let q = i / w;
    assert(w * q == q * w) by (nonlinear_arith);
    assert(0 <= q < h) by (nonlinear_arith)
        requires
            0 <= i < w * h,
            i == q * w + i % w,
            0 <= i % w < w,
    ;
}

/// On a well-formed grid a column and a row on the grid give an index whose
/// column and row they are.
pub proof fn lemma_index_join(grid: PixelGrid, x: int, y: int)
    requires
        grid.wf(),
        grid.contains(x, y),
    ensures
        0 <= y * grid.width + x < grid.pixels.len(),
        grid.column_of(y * grid.width + x) == x,
        grid.row_of(y * grid.width + x) == y,
{
    let w = grid.width as int;
    let h = grid.height as int;
    assert(0 <= y * w + x < w * h) by (nonlinear_arith)
        requires
            0 <= x < w,
            0 <= y < h,
    ;
    lemma_fundamental_div_mod_converse(y * w + x, w, y, x);
}

/// The columns and rows of a well-formed grid with at least one pixel are
/// no more than its pixels.
pub proof fn lemma_extents_fit(grid: PixelGrid)
    requires
        grid.wf(),
    ensures
        grid.pixels.len() > 0 ==> grid.width <= grid.pixels.len() && grid.height
            <= grid.pixels.len(),
        grid.pixels.len() == 0 ==> grid.width == 0 || grid.height == 0,
{
    let w = grid.width as int;
    let h = grid.height as int;
    assert(w * h > 0 ==> w <= w * h && h <= w * h) by (nonlinear_arith)
        requires
            0 <= w,
            0 <= h,
    ;
    assert(w * h == 0 ==> w == 0 || h == 0) by (nonlinear_arith);
}

/// Two grids of the same extents give the same bytes just when they show the
/// same image.
pub proof fn lemma_bytes_show_image(a: PixelGrid, b: PixelGrid)
    requires
        a.width == b.width,
        a.height == b.height,
    ensures
        a.bytes() == b.bytes() <==> a.same_image(b),
{
    if a.bytes() == b.bytes() {
        assert(a.pixels.len() == b.pixels.len()) by {
            assert(a.bytes().len() == 4 * a.pixels.len());
            assert(b.bytes().len() == 4 * b.pixels.len());
        }
        assert forall|i: int| 0 <= i < a.pixels.len() implies a.pixels[i].r == b.pixels[i].r
            && a.pixels[i].g == b.pixels[i].g && a.pixels[i].b == b.pixels[i].b by {
            assert(a.bytes()[4 * i] == a.pixels[i].r);
            assert(b.bytes()[4 * i] == b.pixels[i].r);
            assert(a.bytes()[4 * i + 1] == a.pixels[i].g);
            assert(b.bytes()[4 * i + 1] == b.pixels[i].g);
            assert(a.bytes()[4 * i + 2] == a.pixels[i].b);
            assert(b.bytes()[4 * i + 2] == b.pixels[i].b);
        }
    }
    if a.same_image(b) {
        assert(a.bytes() =~= b.bytes());
    }
}

/// The bytes of a grid are four for each pixel, and every fourth is 255.
pub proof fn lemma_bytes_opaque(grid: PixelGrid, i: int)
    requires
        0 <= i < grid.pixels.len(),
    ensures
        grid.bytes().len() == 4 * grid.pixels.len(),
        grid.bytes()[4 * i] == grid.pixels[i].r,
        grid.bytes()[4 * i + 1] == grid.pixels[i].g,
        grid.bytes()[4 * i + 2] == grid.pixels[i].b,
        grid.bytes()[4 * i + 3] == 255,
{
}

/// A dense, row-major buffer of pixels of fixed extents.
pub struct PixelBuf {
    pixels: Vec<Rgba>,
    width: usize,
    height: usize,
}

impl View for PixelBuf {
    type V = PixelGrid;

    closed spec fn view(&self) -> PixelGrid {
        PixelGrid { width: self.width as nat, height: self.height as nat, pixels: self.pixels@ }
    }
}

impl PixelBuf {
    /// What holds of every pixel buffer: one pixel for each position, and
    /// extents and positions that the machine's integers can hold.
    #[verifier::type_invariant]
    pub open spec fn inv(&self) -> bool {
        &&& self@.wf()
        &&& self@.width <= usize::MAX
        &&& self@.height <= usize::MAX
        &&& self@.pixels.len() <= isize::MAX
    }

    /// A buffer of the given extents with every pixel of one colour.
    pub fn filled(width: usize, height: usize, color: Rgba) -> (buf: PixelBuf)
        requires
            width * height <= isize::MAX,
        ensures
            buf@ == PixelGrid::filled(width as nat, height as nat, color),
    {
        let count: usize = width * height;
        let mut pixels: Vec<Rgba> = Vec::new();
        let mut i: usize = 0;
        while i < count
            invariant
                i <= count,
                pixels@.len() == i,
                forall|k: int| 0 <= k < i ==> pixels@[k] == color,
            decreases count - i,
        {
            pixels.push(color);
            i = i + 1;
        }
        assert(pixels@ =~= Seq::new((width * height) as nat, |i: int| color));
        PixelBuf { pixels, width, height }
    }

    /// A canvas of the given extents, every pixel opaque black.
    pub fn new(width: usize, height: usize) -> (buf: PixelBuf)
        requires
            width * height <= isize::MAX,
        ensures
            buf@ == PixelGrid::filled(width as nat, height as nat, Rgba::black()),
    {
        PixelBuf::filled(width, height, Rgba { r: 0, g: 0, b: 0, a: 255 })
    }

    /// The number of columns.
    pub fn width(&self) -> (width: usize)
        ensures
            width == self@.width,
    {
        self.width
    }

    /// The number of rows.
    pub fn height(&self) -> (height: usize)
        ensures
            height == self@.height,
    {
        self.height
    }

    /// A buffer of the given extents over the given pixels, or `None` where
    /// there is not one pixel for each position.
    pub fn from_pixels(width: usize, height: usize, pixels: Vec<Rgba>) -> (buf: Option<PixelBuf>)
        ensures
            buf.is_some() <==> pixels@.len() == width * height && pixels@.len() <= isize::MAX,
            buf matches Some(b) ==> b@ == (PixelGrid {
                width: width as nat,
                height: height as nat,
                pixels: pixels@,
            }),
    {
        if pixels.len() > isize::MAX as usize {
            return None;
        }
        let fits = if width == 0 || height == 0 {
            assert(width * height == 0) by (nonlinear_arith)
                requires
                    width == 0 || height == 0,
            ;
            pixels.len() == 0
        } else {
            match width.checked_mul(height) {
                Some(count) => count == pixels.len(),
                None => false,
            }
        };
        if fits {
            Some(PixelBuf { pixels, width, height })
        } else {
            None
        }
    }

    /// The pixel at `coordinate`, or `None` where the coordinate is off the
    /// buffer.
    pub fn pixel_at(&self, coordinate: Coordinate) -> (pixel: Option<Rgba>)
        ensures
            pixel.is_some() <==> self@.contains(coordinate.x as int, coordinate.y as int),
            pixel matches Some(p) ==> p == self@.pixel(coordinate.x as int, coordinate.y as int),
    {
        proof {
            use_type_invariant(self);
        }
        match coordinate.to_idx(self.width, self.height) {
            Some(idx) => Some(self.pixels[idx]),
            None => None,
        }
    }

    /// Every pixel with its position, row by row: the pixel at index `i` sits
    /// in column `i % width` of row `i / width`.
    pub fn pixels(self) -> (out: Vec<(Rgba, Coordinate)>)
        ensures
            out@.len() == self@.pixels.len(),
            forall|i: int|
                0 <= i < out@.len() ==> {
                    &&& (#[trigger] out@[i]).0 == self@.pixels[i]
                    &&& out@[i].1.x == self@.column_of(i)
                    &&& out@[i].1.y == self@.row_of(i)
                },
    {
        proof {
            use_type_invariant(&self);
        }
        let mut out: Vec<(Rgba, Coordinate)> = Vec::new();
        let count: usize = self.pixels.len();
        let mut i: usize = 0;
        while i < count
            invariant
                i <= count,
                count == self.pixels@.len(),
                count == self.width * self.height,
                count <= isize::MAX,
                out@.len() == i,
                forall|k: int|
                    0 <= k < i ==> {
                        &&& (#[trigger] out@[k]).0 == self.pixels@[k]
                        &&& out@[k].1.x == k % self.width as int
                        &&& out@[k].1.y == k / self.width as int
                    },
            decreases count - i,
        {
            assert(self.width != 0) by (nonlinear_arith)
                requires
                    i < self.width * self.height,
            ;
            let x: usize = i % self.width;
            let y: usize = i / self.width;
            assert(x <= i && y <= i) by (nonlinear_arith)
                requires
                    x == i % self.width,
                    y == i / self.width,
                    self.width > 0,
            ;
            out.push((self.pixels[i], Coordinate { x: x as isize, y: y as isize }));
            i = i + 1;
        }
        out
    }

    /// The bytes for the presentation surface: four for each pixel, in row
    /// order, with the alpha byte always 255.
    pub fn to_bytes(&self) -> (bytes: Vec<u8>)
        requires
            4 * self@.pixels.len() <= usize::MAX,
        ensures
            bytes@ == self@.bytes(),
            bytes@.len() == 4 * self@.pixels.len(),
            forall|i: int| 0 <= i < self@.pixels.len() ==> #[trigger] bytes@[4 * i + 3] == 255,
    {
        let mut bytes: Vec<u8> = Vec::new();
        let count: usize = self.pixels.len();
        let mut i: usize = 0;
        while i < count
            invariant
                i <= count,
                count == self.pixels@.len(),
                bytes@.len() == 4 * i,
                forall|k: int| 0 <= k < 4 * i ==> bytes@[k] == self@.bytes()[k],
            decreases count - i,
        {
            let pixel = self.pixels[i];
            bytes.push(pixel.r);
            bytes.push(pixel.g);
            bytes.push(pixel.b);
            bytes.push(255);
            i = i + 1;
        }
        assert(bytes@ =~= self@.bytes());
        bytes
    }

    /// Writes the bytes for the presentation surface to the front of `rgba`
    /// and leaves the rest of `rgba` as it was.
    pub fn write_to_rgba_buffer(self, rgba: &mut [u8])
        requires
            4 * self@.pixels.len() <= old(rgba)@.len(),
        ensures
            final(rgba)@.len() == old(rgba)@.len(),
            final(rgba)@.take(4 * self@.pixels.len() as int) == self@.bytes(),
            final(rgba)@.skip(4 * self@.pixels.len() as int) == old(rgba)@.skip(
                4 * self@.pixels.len() as int,
            ),
    {
        let count: usize = self.pixels.len();
        let mut idx: usize = 0;
        let mut i: usize = 0;
        while i < count
            invariant
                i <= count,
                idx == 4 * i,
                count == self.pixels@.len(),
                4 * count <= rgba@.len(),
                rgba@.len() == old(rgba)@.len(),
                forall|k: int| 0 <= k < 4 * i ==> rgba@[k] == self@.bytes()[k],
                forall|k: int| 4 * i <= k < rgba@.len() ==> rgba@[k] == old(rgba)@[k],
            decreases count - i,
        {
            let pixel = self.pixels[i];
            rgba[idx] = pixel.r;
            rgba[idx + 1] = pixel.g;
            rgba[idx + 2] = pixel.b;
            rgba[idx + 3] = 255;
            idx = idx + 4;
            i = i + 1;
        }
        assert(rgba@.take(4 * self@.pixels.len() as int) =~= self@.bytes());
        assert(rgba@.skip(4 * self@.pixels.len() as int) =~= old(rgba)@.skip(
            4 * self@.pixels.len() as int,
        ));
    }

    /// Composites `new_pixel` onto the pixel at `coordinate`. A coordinate
    /// off the buffer changes nothing.
    pub fn set_pixel(&mut self, coordinate: Coordinate, new_pixel: Rgba)
        ensures
            final(self)@ == old(self)@.set_pixel(
                coordinate.x as int,
                coordinate.y as int,
                new_pixel,
            ),
            !old(self)@.contains(coordinate.x as int, coordinate.y as int) ==> final(self)@ == old(
                self,
            )@,
    {
        proof {
            use_type_invariant(&*self);
        }
        if let Some(idx) = coordinate.to_idx(self.width, self.height) {
            let blended = self.pixels[idx].blend(new_pixel);
            self.pixels[idx] = blended;
        }
    }
}

/// A fresh screen canvas: `WIDTH` by `HEIGHT` pixels, every pixel opaque
/// black.
pub fn gen_screen_pixel_buf() -> (buf: PixelBuf)
    ensures
        buf@ == PixelGrid::filled(WIDTH as nat, HEIGHT as nat, Rgba::black()),
{
    PixelBuf::new(WIDTH as usize, HEIGHT as usize)
}

} // verus!
