//! Rasterized glyphs as the rasterizer hands them out, and the uniform bitmap
//! that the compositor takes.

use vstd::prelude::*;
use crate::color::Rgba;
use crate::error::RenderError;
use crate::pixel_buf::{PixelBuf, PixelGrid};

verus! {

/// The pixel bytes of a rasterized glyph, row by row, in one of two encodings.
#[derive(Debug)]
pub enum RasterBuffer {
    /// Three bytes per pixel: red, green, blue.
    Rgb(Vec<u8>),
    /// Four bytes per pixel: red, green, blue, alpha.
    Rgba(Vec<u8>),
}

impl RasterBuffer {
    /// The number of bytes that one pixel takes.
    pub open spec fn channels(&self) -> int {
        match self {
            RasterBuffer::Rgb(_) => 3,
            RasterBuffer::Rgba(_) => 4,
        }
    }

    /// The bytes, whatever the encoding.
    pub open spec fn bytes(&self) -> Seq<u8> {
        match self {
            RasterBuffer::Rgb(bytes) => bytes@,
            RasterBuffer::Rgba(bytes) => bytes@,
        }
    }

    /// The colour of the pixel at index `i`: a pixel of three bytes is fully
    /// opaque, a pixel of four bytes keeps its fourth byte as alpha.
    pub open spec fn pixel(&self, i: int) -> Rgba {
        match self {
            RasterBuffer::Rgb(bytes) => Rgba {
                r: bytes@[3 * i],
                g: bytes@[3 * i + 1],
                b: bytes@[3 * i + 2],
                a: 255,
            },
            RasterBuffer::Rgba(bytes) => Rgba {
                r: bytes@[4 * i],
                g: bytes@[4 * i + 1],
                b: bytes@[4 * i + 2],
                a: bytes@[4 * i + 3],
            },
        }
    }
}

/// A glyph as the rasterizer returns it: extents, bearings, and the pixel
/// bytes in the rasterizer's encoding.
#[derive(Debug)]
pub struct RasterGlyph {
    pub width: i32,
    pub height: i32,
    pub top: i32,
    pub left: i32,
    pub buffer: RasterBuffer,
}

impl RasterGlyph {
    /// The extents are not negative and the buffer holds exactly one pixel
    /// for each position.
    pub open spec fn well_formed(&self) -> bool {
        &&& self.width >= 0
        &&& self.height >= 0
        &&& self.buffer.bytes().len() == self.width * self.height * self.buffer.channels()
    }

    /// The glyph in the uniform representation: extents and bearings as they
    /// are, and one colour for each pixel.
    pub open spec fn decoded(&self) -> GlyphModel {
        GlyphModel {
            left: self.left as int,
            top: self.top as int,
            grid: PixelGrid {
                width: self.width as nat,
                height: self.height as nat,
                pixels: Seq::new(
                    (self.width * self.height) as nat,
                    |i: int| self.buffer.pixel(i),
                ),
            },
        }
    }
}

/// What a glyph bitmap holds: the bearings and the grid of pixels.
pub struct GlyphModel {
    pub left: int,
    pub top: int,
    pub grid: PixelGrid,
}

impl GlyphModel {
    /// How far the pen moves past this glyph: the glyph's width and its left
    /// bearing.
    pub open spec fn advance(self) -> int {
        self.grid.width + self.left
    }
}

/// A glyph ready for the compositor: the left bearing, the top bearing (how
/// far the first row lies above the baseline), and one colour for each pixel,
/// whatever the encoding of the rasterizer was.
pub struct GlyphBitmap {
    left: isize,
    top: isize,
    grid: PixelBuf,
}

impl View for GlyphBitmap {
    type V = GlyphModel;

    closed spec fn view(&self) -> GlyphModel {
        GlyphModel { left: self.left as int, top: self.top as int, grid: self.grid@ }
    }
}

impl GlyphBitmap {
    /// What holds of every glyph bitmap: there is one pixel for each
    /// position, and the pixels are few enough for each to have a coordinate.
    #[verifier::type_invariant]
    pub open spec fn inv(&self) -> bool {
        &&& self@.grid.wf()
        &&& self@.grid.pixels.len() <= isize::MAX
    }

    /// A bitmap of the given grid and bearings.
    pub fn new(grid: PixelBuf, left: isize, top: isize) -> (bitmap: GlyphBitmap)
        ensures
            bitmap@ == (GlyphModel { left: left as int, top: top as int, grid: grid@ }),
    {
        proof {
            use_type_invariant(&grid);
        }
        GlyphBitmap { left, top, grid }
    }

    /// Brings a rasterized glyph into the uniform representation. A glyph
    /// that is not well formed is refused.
    pub fn from_raster(glyph: RasterGlyph) -> (r: Result<GlyphBitmap, RenderError>)
        ensures
            r.is_ok() <==> glyph.well_formed(),
            r matches Ok(bitmap) ==> bitmap@ == glyph.decoded(),
            r matches Err(e) ==> e == RenderError::MalformedGlyph,
    {
        if glyph.width < 0 || glyph.height < 0 {
            return Err(RenderError::MalformedGlyph);
        }
        let width: usize = glyph.width as usize;
        let height: usize = glyph.height as usize;
        assert(0 <= glyph.width * glyph.height <= 0x4000_0000_0000_0000) by (nonlinear_arith)
            requires
                0 <= glyph.width <= 0x7fff_ffff,
                0 <= glyph.height <= 0x7fff_ffff,
        ;
        let area: u128 = (glyph.width as u128) * (glyph.height as u128);
        let mut pixels: Vec<Rgba> = Vec::new();
        match &glyph.buffer {
            RasterBuffer::Rgb(bytes) => {
                if bytes.len() as u128 != area * 3 {
                    return Err(RenderError::MalformedGlyph);
                }
                let count: usize = bytes.len() / 3;
                let mut i: usize = 0;
                while i < count
                    invariant
                        i <= count,
                        bytes@.len() == 3 * count,
                        bytes@.len() <= usize::MAX,
                        pixels@.len() == i,
                        glyph.buffer == RasterBuffer::Rgb(*bytes),
                        forall|k: int| 0 <= k < i ==> pixels@[k] == glyph.buffer.pixel(k),
                    decreases count - i,
                {
                    pixels.push(
                        Rgba { r: bytes[3 * i], g: bytes[3 * i + 1], b: bytes[3 * i + 2], a: 255 },
                    );
                    i = i + 1;
                }
            },
            RasterBuffer::Rgba(bytes) => {
                if bytes.len() as u128 != area * 4 {
                    return Err(RenderError::MalformedGlyph);
                }
                let count: usize = bytes.len() / 4;
                let mut i: usize = 0;
                while i < count
                    invariant
                        i <= count,
                        bytes@.len() == 4 * count,
                        bytes@.len() <= usize::MAX,
                        pixels@.len() == i,
                        glyph.buffer == RasterBuffer::Rgba(*bytes),
                        forall|k: int| 0 <= k < i ==> pixels@[k] == glyph.buffer.pixel(k),
                    decreases count - i,
                {
                    pixels.push(
                        Rgba {
                            r: bytes[4 * i],
                            g: bytes[4 * i + 1],
                            b: bytes[4 * i + 2],
                            a: bytes[4 * i + 3],
                        },
                    );
                    i = i + 1;
                }
            },
        }
        assert(pixels@.len() == width * height);
        assert(pixels@ =~= glyph.decoded().grid.pixels);
        // A buffer has three or four bytes for each pixel, so the pixels are
        // few enough for `from_pixels` to take them.
        match PixelBuf::from_pixels(width, height, pixels) {
            Some(grid) => Ok(GlyphBitmap::new(grid, glyph.left as isize, glyph.top as isize)),
            None => Err(RenderError::MalformedGlyph),
        }
    }

    /// The number of columns of the glyph.
    pub fn width(&self) -> (width: usize)
        ensures
            width == self@.grid.width,
    {
        self.grid.width()
    }

    /// The number of rows of the glyph.
    pub fn height(&self) -> (height: usize)
        ensures
            height == self@.grid.height,
    {
        self.grid.height()
    }

    /// The left bearing: how far right of the pen the first column lies.
    pub fn left_bearing(&self) -> (left: isize)
        ensures
            left == self@.left,
    {
        self.left
    }

    /// The top bearing: how far above the baseline the first row lies.
    pub fn top_bearing(&self) -> (top: isize)
        ensures
            top == self@.top,
    {
        self.top
    }

    /// Gives up the bitmap for its grid of pixels.
    pub fn into_grid(self) -> (grid: PixelBuf)
        ensures
            grid@ == self@.grid,
    {
        self.grid
    }
}

} // verus!
