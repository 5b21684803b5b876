use glyph_canvas::color::Rgba;
use glyph_canvas::compositor::blit;
use glyph_canvas::coordinate::Coordinate;
use glyph_canvas::glyph::GlyphBitmap;
use glyph_canvas::pixel_buf::PixelBuf;

const BLACK: Rgba = Rgba { r: 0, g: 0, b: 0, a: 255 };
const WHITE: Rgba = Rgba { r: 255, g: 255, b: 255, a: 255 };

fn at(x: isize, y: isize) -> Coordinate {
    Coordinate { x, y }
}

fn white(width: usize, height: usize) -> GlyphBitmap {
    GlyphBitmap::new(PixelBuf::filled(width, height, WHITE), 0, 0)
}

/// The positions of a canvas that are white, all others being black.
fn white_positions(canvas: &PixelBuf) -> Vec<(isize, isize)> {
    let mut found = Vec::new();
    for y in 0..canvas.height() as isize {
        for x in 0..canvas.width() as isize {
            let pixel = canvas.pixel_at(at(x, y)).unwrap();
            if pixel == WHITE {
                found.push((x, y));
            } else {
                assert_eq!(pixel, BLACK);
            }
        }
    }
    found
}

#[test]
fn white_square_at_three_three() {
    let mut canvas = PixelBuf::new(10, 10);
    blit(white(2, 2), &mut canvas, at(3, 3));
    assert_eq!(white_positions(&canvas), vec![(3, 3), (4, 3), (3, 4), (4, 4)]);
}

#[test]
fn blit_places_each_pixel_at_anchor_plus_offset() {
    let mut pixels = Vec::new();
    for i in 0..6u8 {
        pixels.push(Rgba { r: 10 * (i + 1), g: 0, b: 0, a: 255 });
    }
    let bitmap = GlyphBitmap::new(PixelBuf::from_pixels(3, 2, pixels).unwrap(), 0, 0);
    let mut canvas = PixelBuf::new(8, 8);
    blit(bitmap, &mut canvas, at(4, 5));
    for ly in 0..2isize {
        for lx in 0..3isize {
            let expected = 10 * (ly * 3 + lx + 1) as u8;
            assert_eq!(canvas.pixel_at(at(4 + lx, 5 + ly)).unwrap().r, expected);
        }
    }
    assert_eq!(canvas.pixel_at(at(3, 5)), Some(BLACK));
    assert_eq!(canvas.pixel_at(at(7, 5)), Some(BLACK));
    assert_eq!(canvas.pixel_at(at(4, 4)), Some(BLACK));
    assert_eq!(canvas.pixel_at(at(4, 7)), Some(BLACK));
}

#[test]
fn blit_blends_with_the_alpha_of_each_pixel() {
    let pixels = vec![
        Rgba { r: 200, g: 200, b: 200, a: 128 },
        Rgba { r: 200, g: 200, b: 200, a: 0 },
        Rgba { r: 200, g: 200, b: 200, a: 255 },
    ];
    let bitmap = GlyphBitmap::new(PixelBuf::from_pixels(3, 1, pixels).unwrap(), 0, 0);
    let mut canvas = PixelBuf::new(3, 1);
    blit(bitmap, &mut canvas, at(0, 0));
    assert_eq!(canvas.to_bytes(), vec![100, 100, 100, 255, 0, 0, 0, 255, 200, 200, 200, 255]);
}

#[test]
fn blit_clips_at_the_left_and_top_edge() {
    let mut canvas = PixelBuf::new(4, 4);
    blit(white(3, 3), &mut canvas, at(-2, -1));
    assert_eq!(white_positions(&canvas), vec![(0, 0), (0, 1)]);
}

#[test]
fn blit_clips_at_the_right_and_bottom_edge() {
    let mut canvas = PixelBuf::new(4, 4);
    blit(white(3, 3), &mut canvas, at(3, 2));
    assert_eq!(white_positions(&canvas), vec![(3, 2), (3, 3)]);
}

#[test]
fn blit_does_not_wrap_into_the_next_row() {
    let mut canvas = PixelBuf::new(4, 4);
    blit(white(3, 1), &mut canvas, at(2, 1));
    assert_eq!(white_positions(&canvas), vec![(2, 1), (3, 1)]);
}

#[test]
fn blit_wholly_off_the_canvas_changes_nothing() {
    let anchors = [
        at(-2, 0),
        at(0, -2),
        at(4, 0),
        at(0, 4),
        at(-100, -100),
        at(isize::MIN, 0),
        at(0, isize::MIN),
        at(isize::MAX, 0),
        at(0, isize::MAX),
        at(isize::MAX, isize::MAX),
    ];
    for anchor in anchors {
        let mut canvas = PixelBuf::new(4, 4);
        let before = canvas.to_bytes();
        blit(white(2, 2), &mut canvas, anchor);
        assert_eq!(canvas.to_bytes(), before);
    }
}

#[test]
fn blit_near_the_largest_coordinate_clips() {
    let mut canvas = PixelBuf::new(4, 4);
    blit(white(3, 3), &mut canvas, at(isize::MAX - 1, isize::MAX - 1));
    assert_eq!(white_positions(&canvas), Vec::new());
}

#[test]
fn blit_of_an_empty_bitmap_changes_nothing() {
    let mut canvas = PixelBuf::new(4, 4);
    blit(white(0, 0), &mut canvas, at(1, 1));
    blit(white(3, 0), &mut canvas, at(1, 1));
    blit(white(0, 3), &mut canvas, at(1, 1));
    assert_eq!(white_positions(&canvas), Vec::new());
}

#[test]
fn blit_larger_than_the_canvas_covers_it() {
    let mut canvas = PixelBuf::new(2, 2);
    blit(white(5, 5), &mut canvas, at(-1, -2));
    assert_eq!(white_positions(&canvas), vec![(0, 0), (1, 0), (0, 1), (1, 1)]);
}
