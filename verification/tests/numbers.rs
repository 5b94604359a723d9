use epaint_font::glyph::{GlyphInfo, UvRect};
use epaint_font::number::{Float32, Vec2};

fn f(x: f32) -> Float32 {
    Float32 { bits: x.to_bits() }
}

#[test]
fn numbers_are_compared_as_numbers() {
    let values = [
        0.0,
        -0.0,
        1.0,
        -1.0,
        f32::MIN_POSITIVE,
        f32::from_bits(1),
        f32::from_bits(0x8000_0001),
        f32::MAX,
        f32::INFINITY,
        f32::NEG_INFINITY,
        f32::NAN,
        -f32::NAN,
        f32::from_bits(0x7F80_0001),
    ];
    for a in values {
        for b in values {
            assert_eq!(f(a) == f(b), a == b);
        }
    }
}

#[test]
fn zero_and_one() {
    assert_eq!(Float32::zero().bits, 0.0f32.to_bits());
    assert_eq!(Float32::one().bits, 1.0f32.to_bits());
}

#[test]
fn default_glyph_is_a_zero_width_space() {
    let info = GlyphInfo::default();
    assert_eq!(info.advance_width, f(0.0));
    assert!(info.uv_rect.is_nothing());
    assert_eq!(info.uv_rect.size, Vec2 { x: f(0.0), y: f(0.0) });
    assert_eq!(info, info);
}

#[test]
fn glyphs_differ_in_any_part() {
    let a = GlyphInfo::default();
    assert!(a != GlyphInfo { advance_width: f(1.0), ..a });
    assert!(a != GlyphInfo { advance_width: f(f32::NAN), ..a });
    for rect in [
        UvRect { min: [1, 0], ..a.uv_rect },
        UvRect { max: [0, 1], ..a.uv_rect },
        UvRect { offset: Vec2 { x: f(1.0), y: f(0.0) }, ..a.uv_rect },
        UvRect { size: Vec2 { x: f(0.0), y: f(1.0) }, ..a.uv_rect },
    ] {
        assert!(a != GlyphInfo { uv_rect: rect, ..a });
    }
}

#[test]
fn a_rectangle_with_equal_corners_is_nothing() {
    let rect = UvRect { min: [3, 4], max: [3, 4], ..UvRect::default() };
    assert!(rect.is_nothing());
    let rect = UvRect { min: [3, 4], max: [3, 5], ..UvRect::default() };
    assert!(!rect.is_nothing());
}
