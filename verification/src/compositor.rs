//! The compositor: blits a glyph bitmap onto the canvas and clips what falls
//! off it.

use vstd::prelude::*;
use crate::color::lemma_blend_ignores_dest_alpha;
use crate::coordinate::Coordinate;
use crate::glyph::GlyphBitmap;
use crate::pixel_buf::{
    lemma_extents_fit, lemma_index_join, lemma_index_split, PixelBuf, PixelGrid,
};

verus! {

impl PixelGrid {
    /// The grid after `glyph` was composited with its first pixel at column
    /// `anchor_x` of row `anchor_y`: every pixel that a pixel of the glyph
    /// lies over is blended with it, every other pixel stays, and what falls
    /// off the grid is dropped.
    pub open spec fn blit(self, glyph: PixelGrid, anchor_x: int, anchor_y: int) -> PixelGrid {
        PixelGrid {
            width: self.width,
            height: self.height,
            pixels: Seq::new(
                self.pixels.len(),
                |i: int|
                    {
                        let lx = self.column_of(i) - anchor_x;
                        let ly = self.row_of(i) - anchor_y;
                        if glyph.contains(lx, ly) {
                            self.pixels[i].blend_spec(glyph.pixel(lx, ly))
                        } else {
                            self.pixels[i]
                        }
                    },
            ),
        }
    }

    /// Whether no pixel of a glyph anchored at (`anchor_x`, `anchor_y`) lies
    /// over the grid: the glyph has no pixels, or it lies wholly beyond one
    /// of the four edges.
    pub open spec fn clips(self, glyph: PixelGrid, anchor_x: int, anchor_y: int) -> bool {
        ||| glyph.width == 0
        ||| glyph.height == 0
        ||| anchor_x + glyph.width <= 0
        ||| anchor_y + glyph.height <= 0
        ||| anchor_x >= self.width
        ||| anchor_y >= self.height
    }

    /// The grid after the first `count` pixels of `glyph`, in row order,
    /// were composited: where the loop of `blit` stands after `count` turns.
    spec fn blit_first(self, glyph: PixelGrid, anchor_x: int, anchor_y: int, count: int) -> PixelGrid {
        PixelGrid {
            width: self.width,
            height: self.height,
            pixels: Seq::new(
                self.pixels.len(),
                |i: int|
                    {
                        let lx = self.column_of(i) - anchor_x;
                        let ly = self.row_of(i) - anchor_y;
                        if glyph.contains(lx, ly) && ly * glyph.width + lx < count {
                            self.pixels[i].blend_spec(glyph.pixel(lx, ly))
                        } else {
                            self.pixels[i]
                        }
                    },
            ),
        }
    }
}

/// Before the first turn of the loop the grid is as it was.
proof fn lemma_blit_none(canvas: PixelGrid, glyph: PixelGrid, anchor_x: int, anchor_y: int)
    requires
        glyph.wf(),
    ensures
        canvas.blit_first(glyph, anchor_x, anchor_y, 0) == canvas,
{
    assert forall|i: int| 0 <= i < canvas.pixels.len() implies canvas.blit_first(
        glyph,
        anchor_x,
        anchor_y,
        0,
    ).pixels[i] == canvas.pixels[i] by {
        let lx = canvas.column_of(i) - anchor_x;
        let ly = canvas.row_of(i) - anchor_y;
        if glyph.contains(lx, ly) {
            lemma_index_join(glyph, lx, ly);
        }
    }
    assert(canvas.blit_first(glyph, anchor_x, anchor_y, 0).pixels =~= canvas.pixels);
}

/// One more turn of the loop is `set_pixel` at the place where the next
/// pixel of the glyph lies.
proof fn lemma_blit_next(
    canvas: PixelGrid,
    glyph: PixelGrid,
    anchor_x: int,
    anchor_y: int,
    count: int,
)
    requires
        canvas.wf(),
        glyph.wf(),
        0 <= count < glyph.pixels.len(),
    ensures
        canvas.blit_first(glyph, anchor_x, anchor_y, count + 1) == canvas.blit_first(
            glyph,
            anchor_x,
            anchor_y,
            count,
        ).set_pixel(
            anchor_x + glyph.column_of(count),
            anchor_y + glyph.row_of(count),
            glyph.pixels[count],
        ),
{
    let before = canvas.blit_first(glyph, anchor_x, anchor_y, count);
    let after = canvas.blit_first(glyph, anchor_x, anchor_y, count + 1);
    let gx = glyph.column_of(count);
    let gy = glyph.row_of(count);
    let x = anchor_x + gx;
    let y = anchor_y + gy;
    let stepped = before.set_pixel(x, y, glyph.pixels[count]);
    lemma_index_split(glyph, count);
    assert(before.wf());
    if before.contains(x, y) {
        lemma_index_join(before, x, y);
    }
    assert(stepped.pixels.len() == after.pixels.len());
    assert forall|i: int| 0 <= i < after.pixels.len() implies after.pixels[i]
        == stepped.pixels[i] by {
        lemma_index_split(canvas, i);
        let lx = canvas.column_of(i) - anchor_x;
        let ly = canvas.row_of(i) - anchor_y;
        // The pixel of the glyph that lies over pixel `i`, if any, has the
        // index `ly * width + lx`; it is the next pixel just when pixel `i`
        // is the one that `set_pixel` blends.
        if glyph.contains(lx, ly) {
            lemma_index_join(glyph, lx, ly);
        }
        if before.contains(x, y) {
            lemma_index_join(canvas, x, y);
        }
        assert(glyph.contains(lx, ly) && ly * glyph.width + lx == count <==> before.contains(x, y)
            && i == y * canvas.width + x);
    }
    assert(after.pixels =~= stepped.pixels);
}

/// After the last turn of the loop the glyph is composited.
proof fn lemma_blit_all(canvas: PixelGrid, glyph: PixelGrid, anchor_x: int, anchor_y: int)
    requires
        glyph.wf(),
    ensures
        canvas.blit_first(glyph, anchor_x, anchor_y, glyph.pixels.len() as int) == canvas.blit(
            glyph,
            anchor_x,
            anchor_y,
        ),
{
    let count = glyph.pixels.len() as int;
    assert forall|i: int| 0 <= i < canvas.pixels.len() implies canvas.blit_first(
        glyph,
        anchor_x,
        anchor_y,
        count,
    ).pixels[i] == canvas.blit(glyph, anchor_x, anchor_y).pixels[i] by {
        let lx = canvas.column_of(i) - anchor_x;
        let ly = canvas.row_of(i) - anchor_y;
        if glyph.contains(lx, ly) {
            lemma_index_join(glyph, lx, ly);
        }
    }
    assert(canvas.blit_first(glyph, anchor_x, anchor_y, count).pixels =~= canvas.blit(
        glyph,
        anchor_x,
        anchor_y,
    ).pixels);
}

/// A glyph that lies wholly off the grid leaves the grid as it is.
pub proof fn lemma_blit_clipped(canvas: PixelGrid, glyph: PixelGrid, anchor_x: int, anchor_y: int)
    requires
        canvas.wf(),
        canvas.clips(glyph, anchor_x, anchor_y),
    ensures
        canvas.blit(glyph, anchor_x, anchor_y) == canvas,
{
    assert forall|i: int| 0 <= i < canvas.pixels.len() implies canvas.blit(
        glyph,
        anchor_x,
        anchor_y,
    ).pixels[i] == canvas.pixels[i] by {
        lemma_index_split(canvas, i);
    }
    assert(canvas.blit(glyph, anchor_x, anchor_y).pixels =~= canvas.pixels);
}

/// A glyph whose anchor is no coordinate lies wholly off a grid whose pixels
/// all have coordinates.
pub proof fn lemma_far_anchor_clips(
    canvas: PixelGrid,
    glyph: PixelGrid,
    anchor_x: int,
    anchor_y: int,
)
    requires
        canvas.wf(),
        glyph.wf(),
        canvas.pixels.len() <= isize::MAX,
        glyph.pixels.len() <= isize::MAX,
        !(isize::MIN <= anchor_x <= isize::MAX) || !(isize::MIN <= anchor_y <= isize::MAX),
    ensures
        canvas.blit(glyph, anchor_x, anchor_y) == canvas,
{
    lemma_extents_fit(canvas);
    lemma_extents_fit(glyph);
    if canvas.pixels.len() == 0 {
        assert(canvas.blit(glyph, anchor_x, anchor_y).pixels =~= canvas.pixels);
    } else {
        lemma_blit_clipped(canvas, glyph, anchor_x, anchor_y);
    }
}

/// Compositing changes a pixel only where a pixel of the glyph lies over it,
/// and there it blends the two.
pub proof fn lemma_blit_pixelwise(
    canvas: PixelGrid,
    glyph: PixelGrid,
    anchor_x: int,
    anchor_y: int,
    x: int,
    y: int,
)
    requires
        canvas.wf(),
        glyph.wf(),
        canvas.contains(x, y),
    ensures
        canvas.blit(glyph, anchor_x, anchor_y).wf(),
        canvas.blit(glyph, anchor_x, anchor_y).pixel(x, y) == if glyph.contains(
            x - anchor_x,
            y - anchor_y,
        ) {
            canvas.pixel(x, y).blend_spec(glyph.pixel(x - anchor_x, y - anchor_y))
        } else {
            canvas.pixel(x, y)
        },
{
    lemma_index_join(canvas, x, y);
    if glyph.contains(x - anchor_x, y - anchor_y) {
        lemma_index_join(glyph, x - anchor_x, y - anchor_y);
    }
}

/// What a blit shows depends on what the grid showed before, not on the
/// alpha of the grid's pixels.
pub proof fn lemma_blit_same_image(
    canvas1: PixelGrid,
    canvas2: PixelGrid,
    glyph: PixelGrid,
    anchor_x: int,
    anchor_y: int,
)
    requires
        canvas1.same_image(canvas2),
    ensures
        canvas1.blit(glyph, anchor_x, anchor_y).same_image(
            canvas2.blit(glyph, anchor_x, anchor_y),
        ),
{
    let out1 = canvas1.blit(glyph, anchor_x, anchor_y);
    let out2 = canvas2.blit(glyph, anchor_x, anchor_y);
    assert forall|i: int| 0 <= i < out1.pixels.len() implies {
        &&& (#[trigger] out1.pixels[i]).r == out2.pixels[i].r
        &&& out1.pixels[i].g == out2.pixels[i].g
        &&& out1.pixels[i].b == out2.pixels[i].b
    } by {
        let dest = canvas1.pixels[i];
        assert(dest.r == canvas2.pixels[i].r);
        let lx = canvas1.column_of(i) - anchor_x;
        let ly = canvas1.row_of(i) - anchor_y;
        lemma_blend_ignores_dest_alpha(dest, canvas2.pixels[i], glyph.pixel(lx, ly));
    }
}

/// Composites `bitmap` onto `canvas` with the bitmap's first pixel at
/// `anchor`. Pixels that fall off the canvas are dropped.
pub fn blit(bitmap: GlyphBitmap, canvas: &mut PixelBuf, anchor: Coordinate)
    ensures
        final(canvas)@ == old(canvas)@.blit(bitmap@.grid, anchor.x as int, anchor.y as int),
{
    let ghost glyph = bitmap@.grid;
    let ghost start = canvas@;
    proof {
        use_type_invariant(&*canvas);
    }
    let grid = bitmap.into_grid();
    proof {
        use_type_invariant(&grid);
        lemma_blit_none(start, glyph, anchor.x as int, anchor.y as int);
    }
    let items = grid.pixels();
    let mut i: usize = 0;
    while i < items.len()
        invariant
            i <= items@.len(),
            items@.len() == glyph.pixels.len(),
            glyph.wf(),
            glyph.pixels.len() <= isize::MAX,
            start.wf(),
            start.pixels.len() <= isize::MAX,
            forall|k: int|
                0 <= k < items@.len() ==> {
                    &&& (#[trigger] items@[k]).0 == glyph.pixels[k]
                    &&& items@[k].1.x == glyph.column_of(k)
                    &&& items@[k].1.y == glyph.row_of(k)
                },
            canvas@ == start.blit_first(glyph, anchor.x as int, anchor.y as int, i as int),
        decreases items@.len() - i,
    {
        let (pixel, offset) = items[i];
        proof {
            lemma_index_split(glyph, i as int);
            lemma_blit_next(start, glyph, anchor.x as int, anchor.y as int, i as int);
            assert(items@[i as int].0 == glyph.pixels[i as int]);
        }
        match (anchor.x.checked_add(offset.x), anchor.y.checked_add(offset.y)) {
            (Some(x), Some(y)) => {
                canvas.set_pixel(Coordinate { x, y }, pixel);
            },
            _ => {
                // A place that is no coordinate is off the canvas.
                proof {
                    lemma_extents_fit(start);
                }
            },
        }
        i = i + 1;
    }
    proof {
        lemma_blit_all(start, glyph, anchor.x as int, anchor.y as int);
    }
}

} // verus!
