use glyph_canvas::color::Rgba;
use glyph_canvas::coordinate::Coordinate;
use glyph_canvas::error::RenderError;
use glyph_canvas::glyph::{GlyphBitmap, RasterBuffer, RasterGlyph};
use glyph_canvas::pixel_buf::PixelBuf;

fn raster(width: i32, height: i32, left: i32, top: i32, buffer: RasterBuffer) -> RasterGlyph {
    RasterGlyph { width, height, top, left, buffer }
}

fn pixel_of(bitmap: GlyphBitmap, x: isize, y: isize) -> Option<Rgba> {
    bitmap.into_grid().pixel_at(Coordinate { x, y })
}

#[test]
fn rgb_glyph_becomes_opaque_pixels() {
    let bytes = vec![1, 2, 3, 4, 5, 6, 7, 8, 9, 10, 11, 12];
    let bitmap = GlyphBitmap::from_raster(raster(2, 2, 0, 0, RasterBuffer::Rgb(bytes))).unwrap();
    let pixels: Vec<Rgba> = bitmap.into_grid().pixels().into_iter().map(|item| item.0).collect();
    assert_eq!(
        pixels,
        vec![
            Rgba { r: 1, g: 2, b: 3, a: 255 },
            Rgba { r: 4, g: 5, b: 6, a: 255 },
            Rgba { r: 7, g: 8, b: 9, a: 255 },
            Rgba { r: 10, g: 11, b: 12, a: 255 },
        ]
    );
}

#[test]
fn rgba_glyph_keeps_its_alpha() {
    let bytes = vec![1, 2, 3, 4, 5, 6, 7, 0, 9, 10, 11, 255];
    let bitmap = GlyphBitmap::from_raster(raster(3, 1, 0, 0, RasterBuffer::Rgba(bytes))).unwrap();
    let pixels: Vec<Rgba> = bitmap.into_grid().pixels().into_iter().map(|item| item.0).collect();
    assert_eq!(
        pixels,
        vec![
            Rgba { r: 1, g: 2, b: 3, a: 4 },
            Rgba { r: 5, g: 6, b: 7, a: 0 },
            Rgba { r: 9, g: 10, b: 11, a: 255 },
        ]
    );
}

#[test]
fn adapter_copies_extents_and_bearings() {
    let bitmap =
        GlyphBitmap::from_raster(raster(3, 2, -4, 11, RasterBuffer::Rgb(vec![0; 18]))).unwrap();
    assert_eq!(bitmap.width(), 3);
    assert_eq!(bitmap.height(), 2);
    assert_eq!(bitmap.left_bearing(), -4);
    assert_eq!(bitmap.top_bearing(), 11);
}

#[test]
fn adapter_is_row_major() {
    let bytes = vec![10, 0, 0, 20, 0, 0, 30, 0, 0, 40, 0, 0, 50, 0, 0, 60, 0, 0];
    let glyph = raster(3, 2, 0, 0, RasterBuffer::Rgb(bytes.clone()));
    assert_eq!(pixel_of(GlyphBitmap::from_raster(glyph).unwrap(), 2, 0).unwrap().r, 30);
    let glyph = raster(3, 2, 0, 0, RasterBuffer::Rgb(bytes));
    assert_eq!(pixel_of(GlyphBitmap::from_raster(glyph).unwrap(), 0, 1).unwrap().r, 40);
}

#[test]
fn empty_glyph_is_well_formed() {
    let bitmap = GlyphBitmap::from_raster(raster(0, 0, 1, 2, RasterBuffer::Rgb(Vec::new()))).unwrap();
    assert_eq!(bitmap.width(), 0);
    assert_eq!(bitmap.height(), 0);
    let bitmap = GlyphBitmap::from_raster(raster(5, 0, 1, 2, RasterBuffer::Rgba(Vec::new()))).unwrap();
    assert_eq!(bitmap.width(), 5);
    assert_eq!(bitmap.height(), 0);
}

#[test]
fn glyph_with_a_short_or_long_buffer_is_refused() {
    for len in [0usize, 11, 13, 16] {
        let glyph = raster(2, 2, 0, 0, RasterBuffer::Rgb(vec![0; len]));
        assert_eq!(GlyphBitmap::from_raster(glyph).err(), Some(RenderError::MalformedGlyph));
    }
    for len in [0usize, 12, 15, 17] {
        let glyph = raster(2, 2, 0, 0, RasterBuffer::Rgba(vec![0; len]));
        assert_eq!(GlyphBitmap::from_raster(glyph).err(), Some(RenderError::MalformedGlyph));
    }
}

#[test]
fn glyph_with_negative_extents_is_refused() {
    let glyph = raster(-1, 2, 0, 0, RasterBuffer::Rgb(Vec::new()));
    assert_eq!(GlyphBitmap::from_raster(glyph).err(), Some(RenderError::MalformedGlyph));
    let glyph = raster(2, -1, 0, 0, RasterBuffer::Rgba(Vec::new()));
    assert_eq!(GlyphBitmap::from_raster(glyph).err(), Some(RenderError::MalformedGlyph));
    let glyph = raster(-2, -3, 0, 0, RasterBuffer::Rgb(vec![0; 18]));
    assert_eq!(GlyphBitmap::from_raster(glyph).err(), Some(RenderError::MalformedGlyph));
    let glyph = raster(i32::MAX, i32::MAX, 0, 0, RasterBuffer::Rgba(vec![0; 4]));
    assert_eq!(GlyphBitmap::from_raster(glyph).err(), Some(RenderError::MalformedGlyph));
}

#[test]
fn bitmap_from_a_grid_keeps_grid_and_bearings() {
    let grid = PixelBuf::filled(2, 3, Rgba { r: 9, g: 8, b: 7, a: 6 });
    let bitmap = GlyphBitmap::new(grid, 5, -6);
    assert_eq!(bitmap.width(), 2);
    assert_eq!(bitmap.height(), 3);
    assert_eq!(bitmap.left_bearing(), 5);
    assert_eq!(bitmap.top_bearing(), -6);
    assert_eq!(pixel_of(bitmap, 1, 2), Some(Rgba { r: 9, g: 8, b: 7, a: 6 }));
}
