use crossfont::{
    BitmapBuffer, FontDesc, FontKey, GlyphKey, Rasterize, Rasterizer, Size, Slant, Style, Weight,
};
use glyph_canvas::coordinate::Coordinate;
use glyph_canvas::error::RenderError;
use glyph_canvas::glyph::{GlyphBitmap, RasterBuffer, RasterGlyph};
use glyph_canvas::glyph_source::{check_font_names, lookup_result, SPACE_WIDTH_CHARACTER};
use glyph_canvas::layout::{measure_space_width, render_character, LayoutState, RenderPass};
use glyph_canvas::pixel_buf::{gen_screen_pixel_buf, PixelBuf};

/// crossfont's rasterizer with one font loaded, as the viewer holds it.
struct Font {
    rasterizer: Rasterizer,
    key: FontKey,
    size: Size,
}

impl Font {
    /// Asks crossfont for the glyph of `character` and hands the answer on
    /// in the library's types.
    fn ask(&mut self, character: char) -> Result<RasterGlyph, RenderError> {
        let key = GlyphKey { character, font_key: self.key, size: self.size };
        lookup_result(self.rasterizer.get_glyph(key).map(|glyph| RasterGlyph {
            width: glyph.width,
            height: glyph.height,
            top: glyph.top,
            left: glyph.left,
            buffer: match glyph.buffer {
                BitmapBuffer::RGB(bytes) => RasterBuffer::Rgb(bytes),
                BitmapBuffer::RGBA(bytes) => RasterBuffer::Rgba(bytes),
            },
        }))
    }

    /// Runs a pass to its end, asking crossfont for each request, and
    /// returns the characters asked for.
    fn run(&mut self, pass: &mut RenderPass) -> Vec<char> {
        let mut asked = Vec::new();
        while let Some(character) = pass.next_request() {
            asked.push(character);
            pass.supply(self.ask(character));
        }
        asked
    }
}

/// Whatever font the machine gives for "monospace", or `None` on a machine
/// without fonts.
fn font() -> Option<Font> {
    assert_eq!(check_font_names("monospace", ""), Ok(()));
    let mut rasterizer = Rasterizer::new(1.0, false).ok()?;
    let style = Style::Description { slant: Slant::Normal, weight: Weight::Normal };
    let size = Size::new(13.0);
    match rasterizer.load_font(&FontDesc::new("monospace", style), size) {
        Ok(key) => Some(Font { rasterizer, key, size }),
        Err(_) => {
            println!("no font on this machine");
            None
        },
    }
}

#[test]
fn rasterizer_gives_glyphs_that_the_adapter_takes() {
    let Some(mut font) = font() else { return };
    for character in ['i', 'W', 'g', 'Q', '0'] {
        let glyph = font.ask(character).unwrap();
        let (width, height, left, top) = (glyph.width, glyph.height, glyph.left, glyph.top);
        assert!(width > 0 && height > 0);
        match &glyph.buffer {
            RasterBuffer::Rgb(bytes) => assert_eq!(bytes.len(), (width * height * 3) as usize),
            RasterBuffer::Rgba(bytes) => assert_eq!(bytes.len(), (width * height * 4) as usize),
        }
        let bitmap = GlyphBitmap::from_raster(glyph).unwrap();
        assert_eq!(bitmap.width(), width as usize);
        assert_eq!(bitmap.height(), height as usize);
        assert_eq!(bitmap.left_bearing(), left as isize);
        assert_eq!(bitmap.top_bearing(), top as isize);
    }
}

#[test]
fn rasterizer_gives_the_same_glyph_twice() {
    let Some(mut font) = font() else { return };
    let first = font.ask('k').unwrap();
    let second = font.ask('k').unwrap();
    assert_eq!(format!("{:?}", first), format!("{:?}", second));
    let other = font.ask('.').unwrap();
    assert_ne!(format!("{:?}", first), format!("{:?}", other));
}

#[test]
fn space_width_is_measured_on_the_letter_i() {
    let Some(mut font) = font() else { return };
    let glyph = font.ask('i').unwrap();
    let expected = glyph.width as i64 + glyph.left as i64;
    assert_eq!(measure_space_width(font.ask(SPACE_WIDTH_CHARACTER)), Ok(expected));
    assert!(expected > 0);
}

#[test]
fn render_character_composites_and_advances() {
    let Some(mut font) = font() else { return };
    let glyph = font.ask('W').unwrap();
    let advance = (glyph.width + glyph.left) as isize;
    let mut canvas = PixelBuf::new(100, 100);
    let background = canvas.to_bytes();
    let start = LayoutState { pen_x: 20, baseline_y: 50 };
    let next = render_character(font.ask('W'), &mut canvas, start).unwrap();
    assert_eq!(next, LayoutState { pen_x: 20 + advance, baseline_y: 50 });
    assert_ne!(canvas.to_bytes(), background);
}

#[test]
fn pass_moves_the_pen_over_blanks_and_glyphs() {
    let Some(mut font) = font() else { return };
    let space = measure_space_width(font.ask(SPACE_WIDTH_CHARACTER)).unwrap();
    let a = font.ask('a').unwrap();
    let b = font.ask('b').unwrap();
    let expected = 10 + (a.width + a.left) as isize + 2 * space as isize + (b.width + b.left) as isize;
    let start = LayoutState { pen_x: 10, baseline_y: 50 };
    let mut pass = RenderPass::begin("a  b", space, start, PixelBuf::new(200, 100));
    assert_eq!(font.run(&mut pass), vec!['a', 'b']);
    assert_eq!(pass.state(), LayoutState { pen_x: expected, baseline_y: 50 });
    assert!(pass.finish().is_ok());
}

#[test]
fn pass_is_the_characters_one_after_another() {
    let Some(mut font) = font() else { return };
    let space = measure_space_width(font.ask(SPACE_WIDTH_CHARACTER)).unwrap();
    let start = LayoutState { pen_x: 5, baseline_y: 30 };
    let mut pass = RenderPass::begin("fox y", space, start, PixelBuf::new(120, 60));
    assert_eq!(font.run(&mut pass), vec!['f', 'o', 'x', 'y']);
    let end = pass.state();
    let whole = pass.finish().unwrap();
    let mut stepwise = PixelBuf::new(120, 60);
    let mut pen = start;
    for character in "fox y".chars() {
        pen = if character == ' ' {
            LayoutState { pen_x: pen.pen_x + space as isize, baseline_y: pen.baseline_y }
        } else {
            render_character(font.ask(character), &mut stepwise, pen).unwrap()
        };
    }
    assert_eq!(end, pen);
    assert_eq!(whole.to_bytes(), stepwise.to_bytes());
}

#[test]
fn two_frames_of_the_same_text_are_the_same() {
    let Some(mut font) = font() else { return };
    let space = measure_space_width(font.ask(SPACE_WIDTH_CHARACTER)).unwrap();
    let text = "the quick brown fox";
    let origin = Coordinate { x: 100, y: 100 };
    let pan = Coordinate { x: -20, y: 35 };
    let mut frames = Vec::new();
    for _ in 0..2 {
        let mut pass = RenderPass::begin_frame(text, space, origin, pan).ok().unwrap();
        font.run(&mut pass);
        frames.push(pass.finish().unwrap().to_bytes());
    }
    assert!(frames[0] == frames[1]);
    assert!(frames[0] != gen_screen_pixel_buf().to_bytes());
}

#[test]
fn frame_panned_far_up_is_the_background() {
    let Some(mut font) = font() else { return };
    let space = measure_space_width(font.ask(SPACE_WIDTH_CHARACTER)).unwrap();
    let text = "THE QUICK brown fox jumped";
    let mut tallest = 0;
    for character in text.chars().filter(|c| *c != ' ') {
        let glyph = font.ask(character).unwrap();
        assert!(glyph.top >= 0);
        tallest = tallest.max(glyph.height as isize);
    }
    let origin = Coordinate { x: 100, y: 100 };
    let pan = Coordinate { x: 0, y: -100 - tallest };
    let mut pass = RenderPass::begin_frame(text, space, origin, pan).ok().unwrap();
    font.run(&mut pass);
    assert!(pass.finish().unwrap().to_bytes() == gen_screen_pixel_buf().to_bytes());
}

#[test]
fn character_without_a_glyph_is_a_lookup_error() {
    let Some(mut font) = font() else { return };
    assert_eq!(font.ask('\u{10FFFF}').err(), Some(RenderError::GlyphLookup));
    // The rasterizer still serves glyphs after a failed lookup.
    assert!(font.ask('a').is_ok());
}

#[test]
fn lookup_error_ends_the_pass_after_the_characters_before_it() {
    let Some(mut font) = font() else { return };
    let space = measure_space_width(font.ask(SPACE_WIDTH_CHARACTER)).unwrap();
    let start = LayoutState { pen_x: 5, baseline_y: 30 };
    let mut failed = RenderPass::begin("ab\u{10FFFF}cd", space, start, PixelBuf::new(120, 60));
    assert_eq!(font.run(&mut failed), vec!['a', 'b', '\u{10FFFF}']);
    assert_eq!(failed.finish().err(), Some(RenderError::GlyphLookup));
    let mut canvas = PixelBuf::new(120, 60);
    let background = canvas.to_bytes();
    let result = render_character(font.ask('\u{10FFFF}'), &mut canvas, start);
    assert_eq!(result, Err(RenderError::GlyphLookup));
    assert_eq!(canvas.to_bytes(), background);
}

#[test]
fn lookup_result_hands_the_glyph_on_and_names_every_error_a_lookup_error() {
    let glyph = RasterGlyph {
        width: 2,
        height: 1,
        top: 3,
        left: -4,
        buffer: RasterBuffer::Rgb(vec![1, 2, 3, 4, 5, 6]),
    };
    let expected = format!("{:?}", glyph);
    let found = lookup_result(Ok(glyph)).unwrap();
    assert_eq!(format!("{:?}", found), expected);
    let errors = [
        crossfont::Error::UnknownFontKey,
        crossfont::Error::MetricsNotFound,
        crossfont::Error::PlatformError("no glyph".to_string()),
        crossfont::Error::MissingGlyph(crossfont::RasterizedGlyph::default()),
    ];
    for error in errors {
        assert_eq!(lookup_result(Err(error)).err(), Some(RenderError::GlyphLookup));
    }
}
