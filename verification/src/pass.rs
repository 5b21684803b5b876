//! The model of a render pass: what a pass over a text leaves on the canvas
//! and where it leaves the pen, given what the glyph source gave for each
//! character. The layout engine is held to this model, and the laws of a
//! pass are proved of it.

use vstd::prelude::*;
use crate::compositor::{lemma_blit_clipped, lemma_blit_same_image};
use crate::error::RenderError;
use crate::glyph::{GlyphModel, RasterGlyph};
use crate::pixel_buf::{lemma_bytes_show_image, PixelGrid};

verus! {

/// What the glyph source gave for one character, brought into the uniform
/// representation: the glyph, or why there is none.
pub type GlyphOutcome = Result<GlyphModel, RenderError>;

/// A render pass at some point of the text: what the canvas holds, where the
/// pen is, and the error that ended the pass, if one did.
pub struct Pass {
    pub canvas: PixelGrid,
    pub pen_x: int,
    pub error: Option<RenderError>,
}

/// Whether a pen position is a coordinate.
pub open spec fn pen_in_range(x: int) -> bool {
    isize::MIN <= x <= isize::MAX
}

/// What the glyph source gave, seen from a rasterized glyph: the decoded
/// glyph where it is well formed.
pub open spec fn raster_outcome(glyph: RasterGlyph) -> GlyphOutcome {
    if glyph.well_formed() {
        Ok(glyph.decoded())
    } else {
        Err(RenderError::MalformedGlyph)
    }
}

/// What the glyph source gave, seen from the answer to a lookup: the outcome
/// of the glyph, or the error of the lookup.
pub open spec fn answer_outcome(answer: Result<RasterGlyph, RenderError>) -> GlyphOutcome {
    match answer {
        Ok(glyph) => raster_outcome(glyph),
        Err(error) => Err(error),
    }
}

/// The characters that the glyph source is asked for over the first `count`
/// characters of `text`: each character that is not a blank, once, in the
/// order of the text; a blank is never asked for.
pub open spec fn characters_asked(text: Seq<char>, count: nat) -> Seq<char>
    decreases count,
{
    if count == 0 {
        Seq::empty()
    } else if text[count - 1] == ' ' {
        characters_asked(text, (count - 1) as nat)
    } else {
        characters_asked(text, (count - 1) as nat).push(text[count - 1])
    }
}

/// The characters asked for over a whole text are the text without its
/// blanks: each other character once, in the order of the text.
pub proof fn lemma_characters_asked_skip_blanks(text: Seq<char>, count: nat)
    requires
        count <= text.len(),
    ensures
        characters_asked(text, count) == text.take(count as int).filter(|c: char| c != ' '),
    decreases count,
{
    reveal(Seq::filter);
    if count > 0 {
        lemma_characters_asked_skip_blanks(text, (count - 1) as nat);
        assert(text.take(count as int).drop_last() =~= text.take(count - 1));
        assert(text.take(count as int).last() == text[count - 1]);
    } else {
        assert(text.take(0).len() == 0);
    }
}

/// The width taken for a blank: the width of a glyph and its left bearing.
pub open spec fn space_width(glyph: RasterGlyph) -> int {
    glyph.width + glyph.left
}

impl Pass {
    /// A pass that starts on `canvas` with the pen at `pen_x`.
    pub open spec fn start(canvas: PixelGrid, pen_x: int) -> Pass {
        Pass { canvas, pen_x, error: None }
    }

    /// The pass with the pen moved right by `by`. A pen that leaves the
    /// range of coordinates ends the pass.
    pub open spec fn advance(self, by: int) -> Pass {
        if pen_in_range(self.pen_x + by) {
            Pass { canvas: self.canvas, pen_x: self.pen_x + by, error: None }
        } else {
            Pass { canvas: self.canvas, pen_x: self.pen_x, error: Some(RenderError::PenOverflow) }
        }
    }

    /// The pass after a character that is not a blank. Its glyph is
    /// composited with its first pixel `left` right of the pen and `top`
    /// above the baseline, and the pen moves on by the glyph's width and left
    /// bearing. Where the glyph source gave no glyph, the pass ends.
    pub open spec fn glyph(self, outcome: GlyphOutcome, baseline_y: int) -> Pass {
        match outcome {
            Ok(glyph) => Pass {
                canvas: self.canvas.blit(
                    glyph.grid,
                    self.pen_x + glyph.left,
                    baseline_y - glyph.top,
                ),
                pen_x: self.pen_x,
                error: None,
            }.advance(glyph.advance()),
            Err(error) => Pass { canvas: self.canvas, pen_x: self.pen_x, error: Some(error) },
        }
    }

    /// The pass after one character. A pass that has ended stays as it is; a
    /// blank moves the pen by `space_width` and asks for no glyph.
    pub open spec fn step(
        self,
        character: char,
        outcome: GlyphOutcome,
        baseline_y: int,
        space_width: int,
    ) -> Pass {
        if self.error is Some {
            self
        } else if character == ' ' {
            self.advance(space_width)
        } else {
            self.glyph(outcome, baseline_y)
        }
    }
}

/// The pass after the first `count` characters of `text`, where
/// `outcomes[i]` is what the glyph source gave for `text[i]`.
pub open spec fn layout_first(
    text: Seq<char>,
    outcomes: Seq<GlyphOutcome>,
    count: nat,
    start: Pass,
    baseline_y: int,
    space_width: int,
) -> Pass
    decreases count,
{
    if count == 0 {
        start
    } else {
        layout_first(text, outcomes, (count - 1) as nat, start, baseline_y, space_width).step(
            text[count - 1],
            outcomes[count - 1],
            baseline_y,
            space_width,
        )
    }
}

/// The pass after the whole of `text`.
pub open spec fn layout(
    text: Seq<char>,
    outcomes: Seq<GlyphOutcome>,
    start: Pass,
    baseline_y: int,
    space_width: int,
) -> Pass {
    layout_first(text, outcomes, text.len(), start, baseline_y, space_width)
}

/// A blank moves the pen by the space width, whatever the glyph source
/// would give for it, and leaves the canvas as it is.
pub proof fn lemma_blank_moves_pen(
    pass: Pass,
    outcome: GlyphOutcome,
    baseline_y: int,
    space_width: int,
)
    requires
        pass.error is None,
        pen_in_range(pass.pen_x + space_width),
    ensures
        pass.step(' ', outcome, baseline_y, space_width) == (Pass {
            canvas: pass.canvas,
            pen_x: pass.pen_x + space_width,
            error: None,
        }),
{
}

/// A character that is not a blank moves the pen by exactly the width of its
/// glyph and the glyph's left bearing.
pub proof fn lemma_glyph_moves_pen(
    pass: Pass,
    character: char,
    glyph: GlyphModel,
    baseline_y: int,
    space_width: int,
)
    requires
        pass.error is None,
        character != ' ',
        pen_in_range(pass.pen_x + glyph.grid.width + glyph.left),
    ensures
        pass.step(character, Ok(glyph), baseline_y, space_width).pen_x == pass.pen_x
            + glyph.grid.width + glyph.left,
        pass.step(character, Ok(glyph), baseline_y, space_width).error is None,
        pass.step(character, Ok(glyph), baseline_y, space_width).canvas == pass.canvas.blit(
            glyph.grid,
            pass.pen_x + glyph.left,
            baseline_y - glyph.top,
        ),
{
}

/// The first characters of a text are laid out the same whatever the glyph
/// source gives for the characters after them.
pub proof fn lemma_layout_first_local(
    text: Seq<char>,
    outcomes1: Seq<GlyphOutcome>,
    outcomes2: Seq<GlyphOutcome>,
    count: nat,
    start: Pass,
    baseline_y: int,
    space_width: int,
)
    requires
        forall|i: int| 0 <= i < count ==> outcomes1[i] == outcomes2[i],
    ensures
        layout_first(text, outcomes1, count, start, baseline_y, space_width) == layout_first(
            text,
            outcomes2,
            count,
            start,
            baseline_y,
            space_width,
        ),
    decreases count,
{
    if count > 0 {
        lemma_layout_first_local(
            text,
            outcomes1,
            outcomes2,
            (count - 1) as nat,
            start,
            baseline_y,
            space_width,
        );
    }
}

/// A pass that has ended stays as it is to the end of the text.
pub proof fn lemma_layout_error_stays(
    text: Seq<char>,
    outcomes: Seq<GlyphOutcome>,
    count: nat,
    more: nat,
    start: Pass,
    baseline_y: int,
    space_width: int,
)
    requires
        count <= more,
        layout_first(text, outcomes, count, start, baseline_y, space_width).error is Some,
    ensures
        layout_first(text, outcomes, more, start, baseline_y, space_width) == layout_first(
            text,
            outcomes,
            count,
            start,
            baseline_y,
            space_width,
        ),
    decreases more,
{
    if count < more {
        lemma_layout_error_stays(
            text,
            outcomes,
            count,
            (more - 1) as nat,
            start,
            baseline_y,
            space_width,
        );
    }
}

/// A pass leaves the extents of the canvas, and the number of its pixels, as
/// they are.
pub proof fn lemma_layout_keeps_extents(
    text: Seq<char>,
    outcomes: Seq<GlyphOutcome>,
    count: nat,
    start: Pass,
    baseline_y: int,
    space_width: int,
)
    ensures
        layout_first(text, outcomes, count, start, baseline_y, space_width).canvas.width
            == start.canvas.width,
        layout_first(text, outcomes, count, start, baseline_y, space_width).canvas.height
            == start.canvas.height,
        layout_first(text, outcomes, count, start, baseline_y, space_width).canvas.pixels.len()
            == start.canvas.pixels.len(),
    decreases count,
{
    if count > 0 {
        lemma_layout_keeps_extents(
            text,
            outcomes,
            (count - 1) as nat,
            start,
            baseline_y,
            space_width,
        );
    }
}

/// Two passes over one text, with the same glyphs, from the same pen and on
/// canvases that show the same image, end with the same pen and the same
/// error, if any, on canvases that show the same image.
pub proof fn lemma_layout_first_deterministic(
    text: Seq<char>,
    outcomes: Seq<GlyphOutcome>,
    count: nat,
    start1: Pass,
    start2: Pass,
    baseline_y: int,
    space_width: int,
)
    requires
        start1.canvas.same_image(start2.canvas),
        start1.pen_x == start2.pen_x,
        start1.error == start2.error,
    ensures
        layout_first(text, outcomes, count, start1, baseline_y, space_width).canvas.same_image(
            layout_first(text, outcomes, count, start2, baseline_y, space_width).canvas,
        ),
        layout_first(text, outcomes, count, start1, baseline_y, space_width).pen_x
            == layout_first(text, outcomes, count, start2, baseline_y, space_width).pen_x,
        layout_first(text, outcomes, count, start1, baseline_y, space_width).error
            == layout_first(text, outcomes, count, start2, baseline_y, space_width).error,
    decreases count,
{
    if count > 0 {
        let before = (count - 1) as nat;
        lemma_layout_first_deterministic(
            text,
            outcomes,
            before,
            start1,
            start2,
            baseline_y,
            space_width,
        );
        let pass1 = layout_first(text, outcomes, before, start1, baseline_y, space_width);
        let pass2 = layout_first(text, outcomes, before, start2, baseline_y, space_width);
        if pass1.error is None && text[count - 1] != ' ' {
            if let Ok(glyph) = outcomes[count - 1] {
                lemma_blit_same_image(
                    pass1.canvas,
                    pass2.canvas,
                    glyph.grid,
                    pass1.pen_x + glyph.left,
                    baseline_y - glyph.top,
                );
            }
        }
    }
}

/// Determinism: two render passes over the same text, with the same glyphs
/// and from the same position, on canvases that give the same bytes, leave
/// canvases that give the same bytes.
pub proof fn lemma_layout_deterministic(
    text: Seq<char>,
    outcomes: Seq<GlyphOutcome>,
    canvas1: PixelGrid,
    canvas2: PixelGrid,
    pen_x: int,
    baseline_y: int,
    space_width: int,
)
    requires
        canvas1.width == canvas2.width,
        canvas1.height == canvas2.height,
        canvas1.bytes() == canvas2.bytes(),
    ensures
        layout(text, outcomes, Pass::start(canvas1, pen_x), baseline_y, space_width).canvas.bytes()
            == layout(
            text,
            outcomes,
            Pass::start(canvas2, pen_x),
            baseline_y,
            space_width,
        ).canvas.bytes(),
        layout(text, outcomes, Pass::start(canvas1, pen_x), baseline_y, space_width).pen_x
            == layout(text, outcomes, Pass::start(canvas2, pen_x), baseline_y, space_width).pen_x,
        layout(text, outcomes, Pass::start(canvas1, pen_x), baseline_y, space_width).error
            == layout(text, outcomes, Pass::start(canvas2, pen_x), baseline_y, space_width).error,
{
    let start1 = Pass::start(canvas1, pen_x);
    let start2 = Pass::start(canvas2, pen_x);
    lemma_bytes_show_image(canvas1, canvas2);
    lemma_layout_first_deterministic(
        text,
        outcomes,
        text.len(),
        start1,
        start2,
        baseline_y,
        space_width,
    );
    let end1 = layout(text, outcomes, start1, baseline_y, space_width);
    let end2 = layout(text, outcomes, start2, baseline_y, space_width);
    lemma_bytes_show_image(end1.canvas, end2.canvas);
}

/// Whether a glyph set on the baseline lies wholly above the first row of
/// the canvas or wholly below its last.
pub open spec fn off_canvas_rows(canvas: PixelGrid, glyph: GlyphModel, baseline_y: int) -> bool {
    ||| baseline_y - glyph.top + glyph.grid.height <= 0
    ||| baseline_y - glyph.top >= canvas.height
}

/// A pass whose every glyph lies above or below the canvas leaves the
/// canvas as it was.
pub proof fn lemma_layout_clipped(
    text: Seq<char>,
    outcomes: Seq<GlyphOutcome>,
    count: nat,
    start: Pass,
    baseline_y: int,
    space_width: int,
)
    requires
        start.canvas.wf(),
        count <= text.len(),
        forall|i: int|
            0 <= i < count ==> (#[trigger] outcomes[i] matches Ok(glyph) ==> off_canvas_rows(
                start.canvas,
                glyph,
                baseline_y,
            )),
    ensures
        layout_first(text, outcomes, count, start, baseline_y, space_width).canvas
            == start.canvas,
    decreases count,
{
    if count > 0 {
        let before = (count - 1) as nat;
        lemma_layout_clipped(text, outcomes, before, start, baseline_y, space_width);
        let pass = layout_first(text, outcomes, before, start, baseline_y, space_width);
        if pass.error is None && text[count - 1] != ' ' {
            if let Ok(glyph) = outcomes[count - 1] {
                lemma_blit_clipped(
                    pass.canvas,
                    glyph.grid,
                    pass.pen_x + glyph.left,
                    baseline_y - glyph.top,
                );
            }
        }
    }
}

} // verus!
