//! Glyphs: how they are measured, where they lie in the texture, and the images
//! that they are drawn from.

use crate::number::{Float32, Vec2};
use vstd::prelude::*;

verus! {

/// Where a glyph lies in the texture, and where it goes on the screen.
#[derive(Clone, Copy, Debug)]
pub struct UvRect {
    /// X/Y offset for nice rendering (unit: points).
    pub offset: Vec2,
    /// Screen size (in points) of this glyph.
    /// Note that the height is different from the font height.
    pub size: Vec2,
    /// Top left corner UV in texture.
    pub min: [u16; 2],
    /// Bottom right corner (exclusive).
    pub max: [u16; 2],
}

impl UvRect {
    /// The rectangle of a glyph that has no pixels: zero throughout.
    pub open spec fn is_blank(self) -> bool {
        &&& self.offset == (Vec2 { x: Float32 { bits: 0 }, y: Float32 { bits: 0 } })
        &&& self.size == (Vec2 { x: Float32 { bits: 0 }, y: Float32 { bits: 0 } })
        &&& self.min@ == seq![0u16, 0u16]
        &&& self.max@ == seq![0u16, 0u16]
    }

    /// All numbers are the same.
    pub open spec fn same_rect(self, other: Self) -> bool {
        &&& self.offset.same_numbers(other.offset)
        &&& self.size.same_numbers(other.size)
        &&& self.min@ == other.min@
        &&& self.max@ == other.max@
    }

    /// Does this glyph cover no pixels?
    pub fn is_nothing(&self) -> (nothing: bool)
        ensures
            nothing == (self.min@ == self.max@),
    {
        assert(self.min@ =~= self.max@ <==> self.min@[0] == self.max@[0] && self.min@[1]
            == self.max@[1]);
        self.min[0] == self.max[0] && self.min[1] == self.max[1]
    }
}

impl Default for UvRect {
    fn default() -> (rect: Self)
        ensures
            rect.is_blank(),
    {
        let zero = Vec2 { x: Float32::zero(), y: Float32::zero() };
        UvRect { offset: zero, size: zero, min: [0, 0], max: [0, 0] }
    }
}

impl PartialEq for UvRect {
    fn eq(&self, other: &Self) -> (equal: bool) {
        assert(self.min@ =~= other.min@ <==> self.min@[0] == other.min@[0] && self.min@[1]
            == other.min@[1]);
        assert(self.max@ =~= other.max@ <==> self.max@[0] == other.max@[0] && self.max@[1]
            == other.max@[1]);
        self.offset == other.offset && self.size == other.size && self.min[0] == other.min[0]
            && self.min[1] == other.min[1] && self.max[0] == other.max[0] && self.max[1]
            == other.max[1]
    }
}

impl vstd::std_specs::cmp::PartialEqSpecImpl for UvRect {
    open spec fn obeys_eq_spec() -> bool {
        true
    }

    open spec fn eq_spec(&self, other: &Self) -> bool {
        self.same_rect(*other)
    }
}

/// What is known of one glyph of one font.
#[derive(Clone, Copy, Debug)]
pub struct GlyphInfo {
    /// Unit: points.
    pub advance_width: Float32,
    /// Texture coordinates.
    pub uv_rect: UvRect,
}

impl GlyphInfo {
    /// No width and no pixels.
    pub open spec fn is_blank(self) -> bool {
        &&& self.advance_width == (Float32 { bits: 0 })
        &&& self.uv_rect.is_blank()
    }

    /// All numbers are the same.
    pub open spec fn same_glyph(self, other: Self) -> bool {
        &&& self.advance_width.same_number(other.advance_width)
        &&& self.uv_rect.same_rect(other.uv_rect)
    }
}

impl Default for GlyphInfo {
    /// Basically a zero-width space.
    fn default() -> (info: Self)
        ensures
            info.is_blank(),
    {
        GlyphInfo { advance_width: Float32::zero(), uv_rect: UvRect::default() }
    }
}

impl PartialEq for GlyphInfo {
    fn eq(&self, other: &Self) -> (equal: bool) {
        self.advance_width == other.advance_width && self.uv_rect == other.uv_rect
    }
}

impl vstd::std_specs::cmp::PartialEqSpecImpl for GlyphInfo {
    open spec fn obeys_eq_spec() -> bool {
        true
    }

    open spec fn eq_spec(&self, other: &Self) -> bool {
        self.same_glyph(*other)
    }
}

/// What the bytes of a glyph image mean.
#[derive(Clone, Copy, Debug, PartialEq, Eq, Structural)]
pub enum ImageContent {
    /// One byte of coverage for each pixel.
    Mask,
    /// Coverage for each part of a pixel.
    SubpixelMask,
    /// A color for each pixel.
    Color,
}

/// The picture of one glyph, as the rasterizer delivers it.
#[derive(Debug)]
pub struct GlyphImage {
    /// What the bytes mean.
    pub content: ImageContent,
    /// From the origin of the glyph to the left edge of the image (pixels).
    pub left: i32,
    /// From the baseline up to the top edge of the image (pixels).
    pub top: i32,
    /// Width in pixels.
    pub width: u32,
    /// Height in pixels.
    pub height: u32,
    /// The rows of the image from the top, each from the left.
    pub data: Vec<u8>,
}

/// The picture of one glyph, as a mathematical value.
pub struct ImageView {
    /// What the bytes mean.
    pub content: ImageContent,
    /// Left edge.
    pub left: i32,
    /// Top edge.
    pub top: i32,
    /// Width in pixels.
    pub width: u32,
    /// Height in pixels.
    pub height: u32,
    /// The bytes.
    pub data: Seq<u8>,
}

impl View for GlyphImage {
    type V = ImageView;

    open spec fn view(&self) -> ImageView {
        ImageView {
            content: self.content,
            left: self.left,
            top: self.top,
            width: self.width,
            height: self.height,
            data: self.data@,
        }
    }
}

/// What came back, as a mathematical value.
pub open spec fn reply_view(reply: Option<GlyphImage>) -> Option<ImageView> {
    match reply {
        Some(image) => Some(image@),
        None => None,
    }
}

/// Why a glyph could not be drawn.
#[derive(Clone, Copy, Debug, PartialEq, Eq, Structural)]
pub enum GlyphError {
    /// The texture atlas has no place of that size, not even when it starts over.
    TooLarge,
    /// Colored glyphs are not supported.
    Colored,
    /// Glyphs with a subpixel mask are not supported.
    SubpixelMask,
    /// The image holds fewer bytes than pixels.
    MissingPixels,
    /// The top edge of the image cannot be negated.
    OffsetOutOfRange,
    /// The numbers in the font file that the glyph would be looked up by do not fit together.
    MalformedFont,
}

} // verus!
