//! Text compositing on a fixed-size pixel canvas.
//!
//! A render pass walks a line of text, has each character rasterized, and
//! composites the glyphs onto a canvas with alpha blending, clipping what
//! falls off the canvas. Scrolling pans the text.

pub mod color;
pub mod compositor;
pub mod coordinate;
pub mod error;
pub mod glyph;
pub mod glyph_source;
pub mod layout;
pub mod pass;
pub mod pixel_buf;
pub mod viewer;
