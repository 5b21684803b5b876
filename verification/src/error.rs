//! The errors of a render pass.

use vstd::prelude::*;

verus! {

/// What can go wrong in a render pass.
#[derive(Clone, Copy, Debug, PartialEq, Eq, Structural)]
pub enum RenderError {
    /// The font cannot be loaded: its family or its style is no name that a
    /// font engine takes.
    FontLoad,
    /// The glyph source has no glyph for a character.
    GlyphLookup,
    /// A rasterized glyph's buffer does not hold one pixel for each position.
    MalformedGlyph,
    /// The pen left the range of coordinates.
    PenOverflow,
}

} // verus!
