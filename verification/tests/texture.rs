use epaint_font::atlas::TextureAtlas;
use epaint_font::glyph::{GlyphError, GlyphImage, ImageContent, UvRect};
use epaint_font::measure::{FontScale, Measure};
use epaint_font::number::{Float32, Vec2};
use epaint_font::placement::place_glyph;

fn f(x: f32) -> Float32 {
    Float32 { bits: x.to_bits() }
}

fn scale() -> FontScale {
    FontScale {
        scale_factor: f(1.0),
        font_size: f(1.0),
        scale_in_pixels: 1,
        height_in_points: f(1.0),
        y_offset_in_points: f(0.25),
        ascent: f(1.0),
        pixels_per_point: f(4.0),
    }
}

fn measure(scale: FontScale, quantity: Measure) -> Float32 {
    let to = |x: Float32| f32::from_bits(x.bits);
    let pixels_per_point = to(scale.pixels_per_point);
    f(match quantity {
        Measure::Advance { unscaled } => to(scale.scale_factor) * to(unscaled) / pixels_per_point,
        Measure::OffsetX { pixels } => pixels as f32 / pixels_per_point,
        Measure::OffsetY { pixels } => {
            pixels as f32 / pixels_per_point + to(scale.y_offset_in_points)
        }
        Measure::Length { extent } => extent as f32 / pixels_per_point,
        _ => unreachable!(),
    })
}

fn image(width: u32, height: u32, data: Vec<u8>) -> GlyphImage {
    GlyphImage { content: ImageContent::Mask, left: 2, top: 3, width, height, data }
}

#[test]
fn image_is_drawn_row_by_row() {
    let mut atlas = TextureAtlas::new(10, 10);
    let info = place_glyph(
        &measure,
        scale(),
        f(8.0),
        Some(image(3, 2, vec![1, 2, 3, 4, 5, 6])),
        &mut atlas,
    )
    .unwrap();
    assert_eq!(info.advance_width, f(2.0));
    assert_eq!(info.uv_rect.offset, Vec2 { x: f(0.5), y: f(-0.75 + 0.25) });
    assert_eq!(info.uv_rect.size, Vec2 { x: f(0.75), y: f(0.5) });
    assert_eq!((info.uv_rect.min, info.uv_rect.max), ([0, 0], [3, 2]));
    assert_eq!(atlas.size(), [10, 2]);
    let rows: Vec<Vec<u8>> =
        (0..3).map(|y| (0..4).map(|x| atlas.pixel(x, y)).collect()).collect();
    assert_eq!(rows, [[1, 2, 3, 0], [4, 5, 6, 0], [0, 0, 0, 0]]);
}

#[test]
fn nothing_to_draw_leaves_the_texture_alone() {
    let mut atlas = TextureAtlas::new(10, 10);
    let colored = GlyphImage { content: ImageContent::Color, ..image(0, 2, vec![]) };
    for reply in [None, Some(image(0, 5, vec![])), Some(image(5, 0, vec![])), Some(colored)] {
        let info = place_glyph(&measure, scale(), f(4.0), reply, &mut atlas).unwrap();
        assert_eq!(info.advance_width, f(1.0));
        assert_eq!(info.uv_rect, UvRect::default());
        assert_eq!(atlas.size(), [10, 0]);
    }
}

#[test]
fn images_that_cannot_be_drawn() {
    let mut atlas = TextureAtlas::new(10, 10);
    let one = || image(1, 1, vec![9]);
    let cases = [
        (image(11, 1, vec![9; 11]), GlyphError::TooLarge),
        (image(1, 11, vec![9; 11]), GlyphError::TooLarge),
        (GlyphImage { content: ImageContent::Color, ..one() }, GlyphError::Colored),
        (GlyphImage { content: ImageContent::SubpixelMask, ..one() }, GlyphError::SubpixelMask),
        (image(2, 2, vec![9; 3]), GlyphError::MissingPixels),
        (GlyphImage { top: i32::MIN, ..one() }, GlyphError::OffsetOutOfRange),
    ];
    for (bad, error) in cases {
        assert_eq!(place_glyph(&measure, scale(), f(0.0), Some(bad), &mut atlas), Err(error));
        assert_eq!(atlas.size(), [10, 0]);
    }
    let lowest = GlyphImage { top: i32::MIN + 1, left: i32::MIN, ..one() };
    assert!(place_glyph(&measure, scale(), f(0.0), Some(lowest), &mut atlas).is_ok());
}

#[test]
fn surplus_bytes_are_not_drawn() {
    let mut atlas = TextureAtlas::new(10, 10);
    let reply = Some(image(2, 1, vec![7, 8, 9]));
    assert!(place_glyph(&measure, scale(), f(0.0), reply, &mut atlas).is_ok());
    assert_eq!(atlas.size(), [10, 1]);
    assert_eq!((atlas.pixel(0, 0), atlas.pixel(1, 0), atlas.pixel(2, 0)), (7, 8, 0));
}

#[test]
fn rectangles_fill_rows() {
    let mut atlas = TextureAtlas::new(10, 12);
    assert_eq!(atlas.allocate(4, 2), (0, 0));
    assert_eq!(atlas.allocate(5, 3), (5, 0));
    assert_eq!(atlas.size(), [10, 3]);
    // The row is full, and one row of pixels stays empty.
    assert_eq!(atlas.allocate(1, 1), (0, 4));
    assert_eq!(atlas.allocate(8, 4), (2, 4));
    assert_eq!(atlas.size(), [10, 8]);
    assert!(!atlas.overflowed());
}

#[test]
fn a_full_texture_starts_over_a_third_down() {
    let mut atlas = TextureAtlas::new(10, 12);
    assert_eq!(atlas.allocate(10, 10), (0, 0));
    assert!(atlas.fits(3, 8));
    assert!(!atlas.fits(3, 9));
    assert!(!atlas.fits(11, 1));
    assert_eq!(atlas.allocate(3, 8), (0, 4));
    assert!(atlas.overflowed());
    assert_eq!(atlas.size(), [10, 12]);
    assert_eq!(atlas.allocate(3, 8), (4, 4));
}

#[test]
fn glyphs_do_not_overlap_until_the_texture_starts_over() {
    let mut atlas = TextureAtlas::new(16, 32);
    let sizes = [(5, 3), (4, 6), (7, 2), (9, 9), (3, 1), (16, 4), (2, 2)];
    let mut rects: Vec<(usize, usize, usize, usize)> = Vec::new();
    for (w, h) in sizes {
        let (x, y) = atlas.allocate(w, h);
        assert!(x + w <= atlas.size()[0] && y + h <= atlas.size()[1]);
        for (x2, y2, w2, h2) in &rects {
            assert!(x + w <= *x2 || x2 + w2 <= x || y + h <= *y2 || y2 + h2 <= y);
        }
        rects.push((x, y, w, h));
    }
    assert!(!atlas.overflowed());
}

#[test]
fn drawing_leaves_other_pixels_alone() {
    let mut atlas = TextureAtlas::new(8, 8);
    let first = atlas.allocate(8, 8);
    atlas.draw_mask(first, 8, 8, &(0..64).collect());
    atlas.draw_mask((2, 3), 2, 2, &vec![200, 201, 202, 203]);
    for y in 0..8 {
        for x in 0..8 {
            let expected = match (x, y) {
                (2, 3) => 200,
                (3, 3) => 201,
                (2, 4) => 202,
                (3, 4) => 203,
                _ => (y * 8 + x) as u8,
            };
            assert_eq!(atlas.pixel(x, y), expected);
        }
    }
    assert_eq!(atlas.pixel(8, 0), 0);
    assert_eq!(atlas.pixel(0, 8), 0);
}
