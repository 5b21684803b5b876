//! The layout engine: walks a text, says for which character the glyph
//! source is to be asked next, composites the glyph that came back at the pen
//! and moves the pen on. The asking itself is the caller's: a render pass
//! hands out a request, the caller asks the glyph source and supplies the
//! answer.

use vstd::prelude::*;
use crate::color::Rgba;
use crate::compositor::{blit, lemma_far_anchor_clips};
use crate::coordinate::Coordinate;
use crate::error::RenderError;
use crate::glyph::{GlyphBitmap, RasterGlyph};
use crate::pass::{
    answer_outcome, characters_asked, layout, layout_first, lemma_layout_error_stays,
    lemma_layout_first_local, pen_in_range, raster_outcome, space_width, GlyphOutcome, Pass,
};
use crate::pixel_buf::{gen_screen_pixel_buf, PixelBuf, PixelGrid, HEIGHT, WIDTH};

verus! {

/// Where a render pass stands: the pen, which moves right with each
/// character, and the baseline, which stays.
#[derive(Clone, Copy, Debug, PartialEq, Eq, Structural)]
pub struct LayoutState {
    pub pen_x: isize,
    pub baseline_y: isize,
}

impl LayoutState {
    /// Where a pass starts: the pen at the left margin of `origin`, the
    /// baseline at the height of `origin`, both moved by `pan_offset`.
    pub fn start(origin: Coordinate, pan_offset: Coordinate) -> (r: Result<
        LayoutState,
        RenderError,
    >)
        ensures
            r.is_ok() <==> pen_in_range(origin.x + pan_offset.x) && pen_in_range(
                origin.y + pan_offset.y,
            ),
            r matches Ok(state) ==> state.pen_x == origin.x + pan_offset.x && state.baseline_y
                == origin.y + pan_offset.y,
            r matches Err(error) ==> error == RenderError::PenOverflow,
    {
        match (origin.x.checked_add(pan_offset.x), origin.y.checked_add(pan_offset.y)) {
            (Some(pen_x), Some(baseline_y)) => Ok(LayoutState { pen_x, baseline_y }),
            _ => Err(RenderError::PenOverflow),
        }
    }
}

impl Pass {
    /// Whether a canvas and a returned value are those of this pass.
    pub open spec fn is_result(
        self,
        baseline_y: int,
        canvas: PixelGrid,
        result: Result<LayoutState, RenderError>,
    ) -> bool {
        &&& canvas == self.canvas
        &&& match result {
            Ok(state) => self.error is None && state.pen_x == self.pen_x && state.baseline_y
                == baseline_y,
            Err(error) => self.error == Some(error),
        }
    }
}

/// The width to take for a blank, read off a rasterized glyph: its width
/// and its left bearing.
pub fn space_width_of(glyph: &RasterGlyph) -> (width: i64)
    ensures
        width == space_width(*glyph),
{
    glyph.width as i64 + glyph.left as i64
}

/// The width to take for a blank, from what the glyph source gave for
/// `SPACE_WIDTH_CHARACTER`: the width of that glyph and its left bearing, or
/// the error of the lookup.
pub fn measure_space_width(answer: Result<RasterGlyph, RenderError>) -> (r: Result<
    i64,
    RenderError,
>)
    ensures
        answer matches Ok(glyph) ==> r == Ok::<i64, RenderError>(space_width(glyph) as i64),
        answer matches Err(error) ==> r == Err::<i64, RenderError>(error),
{
    match answer {
        Ok(glyph) => Ok(space_width_of(&glyph)),
        Err(error) => Err(error),
    }
}

/// Moves the pen right by `by`, or ends the pass where the pen would leave
/// the range of coordinates.
pub fn advance_pen(state: LayoutState, by: i64) -> (r: Result<LayoutState, RenderError>)
    ensures
        r.is_ok() <==> pen_in_range(state.pen_x + by),
        r matches Ok(next) ==> next.pen_x == state.pen_x + by && next.baseline_y
            == state.baseline_y,
        r matches Err(error) ==> error == RenderError::PenOverflow,
{
    let pen: i128 = state.pen_x as i128 + by as i128;
    if pen < isize::MIN as i128 || pen > isize::MAX as i128 {
        Err(RenderError::PenOverflow)
    } else {
        Ok(LayoutState { pen_x: pen as isize, baseline_y: state.baseline_y })
    }
}

/// Composites a rasterized glyph at the pen and moves the pen past it.
pub fn composite_glyph(glyph: RasterGlyph, canvas: &mut PixelBuf, state: LayoutState) -> (r: Result<
    LayoutState,
    RenderError,
>)
    ensures
        Pass::start(old(canvas)@, state.pen_x as int).glyph(
            raster_outcome(glyph),
            state.baseline_y as int,
        ).is_result(state.baseline_y as int, final(canvas)@, r),
        glyph.well_formed() && pen_in_range(state.pen_x + glyph.width + glyph.left) ==> r
            == Ok::<LayoutState, RenderError>(
            LayoutState {
                pen_x: (state.pen_x + glyph.width + glyph.left) as isize,
                baseline_y: state.baseline_y,
            },
        ),
{
    let bitmap = match GlyphBitmap::from_raster(glyph) {
        Ok(bitmap) => bitmap,
        Err(error) => {
            return Err(error);
        },
    };
    let ghost model = bitmap@;
    let ghost start = canvas@;
    let width: usize = bitmap.width();
    let left: isize = bitmap.left_bearing();
    let top: isize = bitmap.top_bearing();
    match (state.pen_x.checked_add(left), state.baseline_y.checked_sub(top)) {
        (Some(x), Some(y)) => {
            blit(bitmap, canvas, Coordinate { x, y });
        },
        _ => {
            proof {
                use_type_invariant(&*canvas);
                use_type_invariant(&bitmap);
                lemma_far_anchor_clips(
                    start,
                    model.grid,
                    state.pen_x + model.left,
                    state.baseline_y - model.top,
                );
            }
        },
    }
    let pen: i128 = state.pen_x as i128 + width as i128 + left as i128;
    if pen < isize::MIN as i128 || pen > isize::MAX as i128 {
        Err(RenderError::PenOverflow)
    } else {
        Ok(LayoutState { pen_x: pen as isize, baseline_y: state.baseline_y })
    }
}

/// Renders one character that is not a blank, from what the glyph source
/// gave for it: composites the glyph at the pen and moves the pen past it.
/// Where the glyph source gave no glyph, the canvas stays and the error is
/// that of the lookup.
pub fn render_character(
    answer: Result<RasterGlyph, RenderError>,
    canvas: &mut PixelBuf,
    state: LayoutState,
) -> (r: Result<LayoutState, RenderError>)
    ensures
        Pass::start(old(canvas)@, state.pen_x as int).glyph(
            answer_outcome(answer),
            state.baseline_y as int,
        ).is_result(state.baseline_y as int, final(canvas)@, r),
{
    match answer {
        Ok(glyph) => composite_glyph(glyph, canvas, state),
        Err(error) => Err(error),
    }
}

/// A render pass in progress: the text, how far it is laid out, the canvas
/// and the pen. The pass hands out, one at a time, the characters that the
/// glyph source is to be asked for, and takes the answers.
pub struct RenderPass {
    text: Vec<char>,
    position: usize,
    pending: bool,
    state: LayoutState,
    width_of_space: i64,
    canvas: PixelBuf,
    error: Option<RenderError>,
    answers: Ghost<Seq<GlyphOutcome>>,
    origin: Ghost<Pass>,
}

impl RenderPass {
    /// The text of the pass.
    pub closed spec fn text(&self) -> Seq<char> {
        self.text@
    }

    /// How many characters of the text are laid out.
    pub closed spec fn position(&self) -> nat {
        self.position as nat
    }

    /// Whether the pass has handed out a request and waits for the answer.
    pub closed spec fn awaits(&self) -> bool {
        self.pending
    }

    /// Where the pass stands: the canvas, the pen, and the error that ended
    /// the pass, if one did.
    pub closed spec fn pass(&self) -> Pass {
        Pass { canvas: self.canvas@, pen_x: self.state.pen_x as int, error: self.error }
    }

    /// Where the pass started.
    pub closed spec fn origin(&self) -> Pass {
        self.origin@
    }

    /// The baseline of the pass.
    pub closed spec fn baseline_y(&self) -> int {
        self.state.baseline_y as int
    }

    /// The width that the pass takes for a blank.
    pub closed spec fn space_width(&self) -> int {
        self.width_of_space as int
    }

    /// What the glyph source gave so far: `answers()[i]` for `text()[i]`.
    /// The entries of blanks, and of characters not yet laid out, say
    /// nothing.
    pub closed spec fn answers(&self) -> Seq<GlyphOutcome> {
        self.answers@
    }

    /// The characters that the pass has handed out as requests so far.
    pub open spec fn asked(&self) -> Seq<char> {
        characters_asked(
            self.text(),
            if self.awaits() {
                self.position() + 1
            } else {
                self.position()
            },
        )
    }

    /// What holds of every pass in progress: it stands where the model of a
    /// pass stands after the characters laid out so far, and a request that
    /// it waits on is for the next character, which is no blank.
    pub closed spec fn wf(&self) -> bool {
        &&& self.position <= self.text@.len()
        &&& self.answers@.len() == self.text@.len()
        &&& self.origin@.error is None
        &&& self.pass() == layout_first(
            self.text@,
            self.answers@,
            self.position as nat,
            self.origin@,
            self.state.baseline_y as int,
            self.width_of_space as int,
        )
        &&& self.pending ==> self.error is None && self.position < self.text@.len()
            && self.text@[self.position as int] != ' '
    }

    /// Begins a pass over `text` on `canvas`, from the pen of `state` along
    /// its baseline, with blanks `width_of_space` wide.
    pub fn begin(text: &str, width_of_space: i64, state: LayoutState, canvas: PixelBuf) -> (pass:
        RenderPass)
        ensures
            pass.wf(),
            pass.text() == text@,
            pass.position() == 0,
            !pass.awaits(),
            pass.pass() == Pass::start(canvas@, state.pen_x as int),
            pass.origin() == Pass::start(canvas@, state.pen_x as int),
            pass.baseline_y() == state.baseline_y,
            pass.space_width() == width_of_space,
    {
        let mut characters: Vec<char> = Vec::new();
        for character in it: text.chars()
            invariant
                it.seq() == text@,
                characters@.len() == it.index(),
                forall|i: int| 0 <= i < it.index() ==> characters@[i] == text@[i],
        {
            characters.push(character);
        }
        assert(characters@ =~= text@);
        RenderPass {
            text: characters,
            position: 0,
            pending: false,
            state,
            width_of_space,
            canvas,
            error: None,
            answers: Ghost(Seq::new(text@.len(), |i: int| Err(RenderError::GlyphLookup))),
            origin: Ghost(Pass::start(canvas@, state.pen_x as int)),
        }
    }

    /// Begins a pass over `text` on a fresh screen canvas, from `origin`
    /// moved by `pan_offset`. Nothing is kept from one pass to the next. A
    /// start that is no coordinate is refused with `PenOverflow`.
    pub fn begin_frame(
        text: &str,
        width_of_space: i64,
        origin: Coordinate,
        pan_offset: Coordinate,
    ) -> (r: Result<RenderPass, RenderError>)
        ensures
            r.is_ok() <==> pen_in_range(origin.x + pan_offset.x) && pen_in_range(
                origin.y + pan_offset.y,
            ),
            r matches Err(error) ==> error == RenderError::PenOverflow,
            r matches Ok(pass) ==> {
                &&& pass.wf()
                &&& pass.text() == text@
                &&& pass.position() == 0
                &&& !pass.awaits()
                &&& pass.pass() == pass.origin()
                &&& pass.origin() == Pass::start(
                    PixelGrid::filled(WIDTH as nat, HEIGHT as nat, Rgba::black()),
                    origin.x + pan_offset.x,
                )
                &&& pass.baseline_y() == origin.y + pan_offset.y
                &&& pass.space_width() == width_of_space
            },
    {
        match LayoutState::start(origin, pan_offset) {
            Ok(state) => Ok(RenderPass::begin(text, width_of_space, state, gen_screen_pixel_buf())),
            Err(error) => Err(error),
        }
    }

    /// Whether the pass waits for the answer to a request.
    pub fn awaits_answer(&self) -> (waits: bool)
        ensures
            waits == self.awaits(),
    {
        self.pending
    }

    /// Lays out the blanks that come next and hands out the next request:
    /// the character that the glyph source is to be asked for, or `None`
    /// when the pass is over, at the end of the text or at its first error.
    /// A pass that waits for an answer hands out the same request again.
    pub fn next_request(&mut self) -> (request: Option<char>)
        requires
            old(self).wf(),
        ensures
            final(self).wf(),
            final(self).text() == old(self).text(),
            final(self).origin() == old(self).origin(),
            final(self).baseline_y() == old(self).baseline_y(),
            final(self).space_width() == old(self).space_width(),
            final(self).answers() == old(self).answers(),
            old(self).position() <= final(self).position() <= final(self).text().len(),
            forall|i: int|
                old(self).position() <= i < final(self).position() ==> final(self).text()[i]
                    == ' ',
            final(self).pass() == layout_first(
                final(self).text(),
                final(self).answers(),
                final(self).position(),
                final(self).origin(),
                final(self).baseline_y(),
                final(self).space_width(),
            ),
            request matches Some(character) ==> {
                &&& final(self).awaits()
                &&& final(self).pass().error is None
                &&& final(self).position() < final(self).text().len()
                &&& final(self).text()[final(self).position() as int] == character
                &&& character != ' '
            },
            request is None ==> {
                &&& !final(self).awaits()
                &&& (final(self).pass().error is Some || final(self).position()
                    == final(self).text().len())
                &&& final(self).pass() == layout(
                    final(self).text(),
                    final(self).answers(),
                    final(self).origin(),
                    final(self).baseline_y(),
                    final(self).space_width(),
                )
            },
            old(self).awaits() ==> *final(self) == *old(self),
            final(self).position() == old(self).position() ==> final(self).pass()
                == old(self).pass(),
            final(self).position() > old(self).position() ==> layout_first(
                final(self).text(),
                final(self).answers(),
                (final(self).position() - 1) as nat,
                final(self).origin(),
                final(self).baseline_y(),
                final(self).space_width(),
            ).error is None,
            final(self).asked() == match request {
                Some(character) => if old(self).awaits() {
                    old(self).asked()
                } else {
                    old(self).asked().push(character)
                },
                None => old(self).asked(),
            },
    {
        if self.pending {
            return Some(self.text[self.position]);
        }
        let ghost asked = self.asked();
        while self.error.is_none() && self.position < self.text.len()
            invariant
                self.wf(),
                !self.pending,
                !old(self).pending,
                asked == old(self).asked(),
                self.position == old(self).position ==> self.pass() == old(self).pass(),
                self.position > old(self).position ==> layout_first(
                    self.text@,
                    self.answers@,
                    (self.position - 1) as nat,
                    self.origin@,
                    self.state.baseline_y as int,
                    self.width_of_space as int,
                ).error is None,
                self.text == old(self).text,
                self.origin == old(self).origin,
                self.answers == old(self).answers,
                self.state.baseline_y == old(self).state.baseline_y,
                self.width_of_space == old(self).width_of_space,
                old(self).position <= self.position <= self.text@.len(),
                forall|i: int| old(self).position <= i < self.position ==> self.text@[i] == ' ',
                characters_asked(self.text@, self.position as nat) == asked,
            decreases self.text@.len() - self.position,
        {
            let character = self.text[self.position];
            if character != ' ' {
                self.pending = true;
                return Some(character);
            }
            match advance_pen(self.state, self.width_of_space) {
                Ok(next) => {
                    self.state = next;
                },
                Err(error) => {
                    self.error = Some(error);
                },
            }
            self.position = self.position + 1;
        }
        proof {
            if self.error is Some {
                lemma_layout_error_stays(
                    self.text@,
                    self.answers@,
                    self.position as nat,
                    self.text@.len(),
                    self.origin@,
                    self.state.baseline_y as int,
                    self.width_of_space as int,
                );
            }
        }
        None
    }

    /// Takes what the glyph source gave for the request that the pass waits
    /// on, and renders that character.
    pub fn supply(&mut self, answer: Result<RasterGlyph, RenderError>)
        requires
            old(self).wf(),
            old(self).awaits(),
        ensures
            final(self).wf(),
            !final(self).awaits(),
            final(self).text() == old(self).text(),
            final(self).origin() == old(self).origin(),
            final(self).baseline_y() == old(self).baseline_y(),
            final(self).space_width() == old(self).space_width(),
            final(self).position() == old(self).position() + 1,
            final(self).answers() == old(self).answers().update(
                old(self).position() as int,
                answer_outcome(answer),
            ),
            final(self).pass() == old(self).pass().glyph(
                answer_outcome(answer),
                old(self).baseline_y(),
            ),
            final(self).asked() == old(self).asked(),
    {
        let ghost outcome = answer_outcome(answer);
        let ghost earlier = self.answers@;
        let ghost before = self.pass();
        let length: usize = self.text.len();
        assert(self.position < length);
        match render_character(answer, &mut self.canvas, self.state) {
            Ok(next) => {
                self.state = next;
            },
            Err(error) => {
                self.error = Some(error);
            },
        }
        proof {
            self.answers@ = earlier.update(self.position as int, outcome);
            lemma_layout_first_local(
                self.text@,
                earlier,
                self.answers@,
                self.position as nat,
                self.origin@,
                self.state.baseline_y as int,
                self.width_of_space as int,
            );
            assert(self.pass() == before.glyph(outcome, self.state.baseline_y as int));
        }
        self.position = self.position + 1;
        self.pending = false;
    }

    /// The pen and the baseline of the pass as it stands.
    pub fn state(&self) -> (state: LayoutState)
        ensures
            state.pen_x == self.pass().pen_x,
            state.baseline_y == self.baseline_y(),
    {
        self.state
    }

    /// Ends the pass and gives up its canvas: the canvas as the pass left
    /// it, or, where an error ended the pass, the error and no canvas.
    pub fn finish(self) -> (frame: Result<PixelBuf, RenderError>)
        ensures
            match frame {
                Ok(canvas) => self.pass().error is None && canvas@ == self.pass().canvas,
                Err(error) => self.pass().error == Some(error),
            },
    {
        match self.error {
            None => Ok(self.canvas),
            Some(error) => Err(error),
        }
    }
}

} // verus!
