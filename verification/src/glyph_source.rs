//! The seam to the glyph source. Font loading and rasterization are
//! crossfont's work and are asked for outside this library: a font engine
//! may give up on font data it does not expect, and nothing here can rule
//! that out. The library says what is asked (`RenderPass::next_request`,
//! `SPACE_WIDTH_CHARACTER`), checks what can be checked before asking, and
//! takes what came back.

use vstd::prelude::*;
use crate::error::RenderError;
use crate::glyph::RasterGlyph;

verus! {

/// crossfont's `Error`. Opaque here: the library tells only which call
/// failed.
#[verifier::external_type_specification]
#[verifier::external_body]
pub struct ExError(crossfont::Error);

/// The character on which the width of a blank is measured: a blank has no
/// glyph of its own, and the letter `i` is about as wide.
pub const SPACE_WIDTH_CHARACTER: char = 'i';

/// Whether a name can be handed to the font engine, which takes names that
/// end at the first NUL: a name that holds a NUL cannot.
pub open spec fn name_is_loadable(name: Seq<char>) -> bool {
    forall|i: int| 0 <= i < name.len() ==> name[i] != '\0'
}

/// Whether `name` holds no NUL.
fn holds_no_nul(name: &str) -> (clean: bool)
    ensures
        clean == name_is_loadable(name@),
{
    for character in it: name.chars()
        invariant
            it.seq() == name@,
            forall|i: int| 0 <= i < it.index() ==> name@[i] != '\0',
    {
        if character == '\0' {
            assert(name@[it.index() as int] == '\0');
            return false;
        }
    }
    true
}

/// Checks the family and the style of a font before the font engine is asked
/// to load it. A name that holds a NUL is refused with `FontLoad`; the font
/// engine would give up on it.
pub fn check_font_names(family: &str, style: &str) -> (r: Result<(), RenderError>)
    ensures
        r.is_ok() <==> name_is_loadable(family@) && name_is_loadable(style@),
        r matches Err(error) ==> error == RenderError::FontLoad,
{
    if holds_no_nul(family) && holds_no_nul(style) {
        Ok(())
    } else {
        Err(RenderError::FontLoad)
    }
}

/// What a lookup comes to for what the rasterizer gave: the glyph as it is,
/// and `GlyphLookup` for whatever error the rasterizer reports.
pub fn lookup_result(given: Result<RasterGlyph, crossfont::Error>) -> (r: Result<
    RasterGlyph,
    RenderError,
>)
    ensures
        given matches Ok(glyph) ==> r == Ok::<RasterGlyph, RenderError>(glyph),
        given is Err ==> r == Err::<RasterGlyph, RenderError>(RenderError::GlyphLookup),
{
    match given {
        Ok(glyph) => Ok(glyph),
        Err(_) => Err(RenderError::GlyphLookup),
    }
}

} // verus!
