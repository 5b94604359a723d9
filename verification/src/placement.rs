//! Drawing the image of a glyph into the texture.

use crate::atlas::{AtlasView, TextureAtlas};
use crate::glyph::{
    reply_view, GlyphError, GlyphImage, GlyphInfo, ImageContent, ImageView, UvRect,
};
use crate::measure::{measured, measures_all, FontScale, Measure};
use crate::number::{Float32, Vec2};
use vstd::prelude::*;

verus! {

/// The image that came back, if it has any pixels.
pub open spec fn drawable(reply: Option<ImageView>) -> Option<ImageView> {
    match reply {
        Some(image) => if image.width > 0 && image.height > 0 {
            Some(image)
        } else {
            None
        },
        None => None,
    }
}

/// What keeps the image that came back from being drawn.
pub open spec fn obstacle(reply: Option<ImageView>, atlas: AtlasView) -> Option<GlyphError> {
    match drawable(reply) {
        None => None,
        Some(image) => if !atlas.fits(image.width as nat, image.height as nat) {
            Some(GlyphError::TooLarge)
        } else {
            match image.content {
                ImageContent::Color => Some(GlyphError::Colored),
                ImageContent::SubpixelMask => Some(GlyphError::SubpixelMask),
                ImageContent::Mask => if image.data.len() < image.width * image.height {
                    Some(GlyphError::MissingPixels)
                } else if image.top == i32::MIN {
                    Some(GlyphError::OffsetOutOfRange)
                } else {
                    None
                },
            }
        },
    }
}

/// The rectangle of an image at a place in the texture.
pub open spec fn rect_of<F: Fn(FontScale, Measure) -> Float32>(
    measure: F,
    scale: FontScale,
    image: ImageView,
    pos: (nat, nat),
    rect: UvRect,
) -> bool {
    &&& measured(measure, scale, Measure::OffsetX { pixels: image.left }, rect.offset.x)
    &&& measured(measure, scale, Measure::OffsetY { pixels: (-image.top) as i32 }, rect.offset.y)
    &&& measured(measure, scale, Measure::Length { extent: image.width }, rect.size.x)
    &&& measured(measure, scale, Measure::Length { extent: image.height }, rect.size.y)
    &&& rect.min@ == seq![pos.0 as u16, pos.1 as u16]
    &&& rect.max@ == seq![(pos.0 + image.width) as u16, (pos.1 + image.height) as u16]
}

/// The rectangle covers no pixels and is zero throughout, or its corners are as far apart
/// as its size says.
pub open spec fn rect_sound<F: Fn(FontScale, Measure) -> Float32>(
    measure: F,
    scale: FontScale,
    rect: UvRect,
) -> bool {
    ||| rect.is_blank()
    ||| {
        let (w, h) = (rect.max@[0] - rect.min@[0], rect.max@[1] - rect.min@[1]);
        &&& w > 0
        &&& h > 0
        &&& measured(measure, scale, Measure::Length { extent: w as u32 }, rect.size.x)
        &&& measured(measure, scale, Measure::Length { extent: h as u32 }, rect.size.y)
    }
}

/// The glyph, and the texture with it: where there is something to draw it is
/// drawn where the texture has room, and otherwise the texture is left alone.
pub open spec fn glyph_placed<F: Fn(FontScale, Measure) -> Float32>(
    measure: F,
    scale: FontScale,
    unscaled: Float32,
    reply: Option<ImageView>,
    before: AtlasView,
    after: AtlasView,
    info: GlyphInfo,
) -> bool {
    &&& measured(measure, scale, Measure::Advance { unscaled }, info.advance_width)
    &&& match drawable(reply) {
        None => after == before && info.uv_rect.is_blank(),
        Some(image) => {
            let (w, h) = (image.width as nat, image.height as nat);
            &&& before.painted(w, h, image.data, after)
            &&& rect_of(measure, scale, image, before.position(w, h), info.uv_rect)
        },
    }
}

/// Draws the image that the rasterizer gave for a glyph into the texture, and
/// works out the measures of the glyph. `unscaled` is its advance width in font
/// units.
pub fn place_glyph<F: Fn(FontScale, Measure) -> Float32>(
    measure: &F,
    scale: FontScale,
    unscaled: Float32,
    reply: Option<GlyphImage>,
    atlas: &mut TextureAtlas,
) -> (result: Result<GlyphInfo, GlyphError>)
    requires
        old(atlas).well_formed(),
        measures_all(*measure),
    ensures
        final(atlas).well_formed(),
        match result {
            Ok(info) => {
                &&& obstacle(reply_view(reply), old(atlas)@) is None
                &&& glyph_placed(
                    *measure,
                    scale,
                    unscaled,
                    reply_view(reply),
                    old(atlas)@,
                    final(atlas)@,
                    info,
                )
            },
            Err(error) => {
                &&& obstacle(reply_view(reply), old(atlas)@) == Some(error)
                &&& final(atlas)@ == old(atlas)@
            },
        },
{
    let mut uv_rect = UvRect::default();
    if let Some(image) = reply {
        if image.width != 0 && image.height != 0 {
            let (w, h) = (image.width as usize, image.height as usize);
            if !atlas.fits(w, h) {
                return Err(GlyphError::TooLarge);
            }
            match image.content {
                ImageContent::Color => {
                    return Err(GlyphError::Colored);
                },
                ImageContent::SubpixelMask => {
                    return Err(GlyphError::SubpixelMask);
                },
                ImageContent::Mask => {},
            }
            assert(image.width * image.height <= u64::MAX) by (nonlinear_arith)
                requires
                    image.width <= u32::MAX,
                    image.height <= u32::MAX,
            ;
            if (image.data.len() as u64) < image.width as u64 * image.height as u64 {
                return Err(GlyphError::MissingPixels);
            }
            if image.top == i32::MIN {
                return Err(GlyphError::OffsetOutOfRange);
            }
            let ghost before = atlas@;
            let pos = atlas.allocate(w, h);
            let ghost placed = atlas@;
            atlas.draw_mask(pos, w, h, &image.data);
            proof {
                assert forall|x: int, y: int| #[trigger]
                    atlas@.coverage(x, y) == (if crate::atlas::in_rect(
                        x,
                        y,
                        before.position(w as nat, h as nat),
                        w as nat,
                        h as nat,
                    ) {
                        image.data@[(y - pos.1) * w + (x - pos.0)]
                    } else {
                        before.coverage(x, y)
                    }) by {
                    assert(placed.coverage(x, y) == before.coverage(x, y));
                }
            }
            let offset = Vec2 {
                x: (*measure)(scale, Measure::OffsetX { pixels: image.left }),
                y: (*measure)(scale, Measure::OffsetY { pixels: -image.top }),
            };
            let size = Vec2 {
                x: (*measure)(scale, Measure::Length { extent: image.width }),
                y: (*measure)(scale, Measure::Length { extent: image.height }),
            };
            let min: [u16; 2] = [pos.0 as u16, pos.1 as u16];
            let max: [u16; 2] = [(pos.0 + w) as u16, (pos.1 + h) as u16];
            uv_rect = UvRect { offset, size, min, max };
            assert(uv_rect.min@ =~= seq![pos.0 as u16, pos.1 as u16]);
            assert(uv_rect.max@ =~= seq![(pos.0 + w) as u16, (pos.1 + h) as u16]);
        }
    }
    let advance_width = (*measure)(scale, Measure::Advance { unscaled });
    Ok(GlyphInfo { advance_width, uv_rect })
}

/// A glyph that has just been placed has a sound rectangle, if the texture with it can be
/// addressed with 16 bits; then it could before.
pub proof fn law_placed_rect_is_sound<F: Fn(FontScale, Measure) -> Float32>(
    measure: F,
    scale: FontScale,
    unscaled: Float32,
    reply: Option<ImageView>,
    before: AtlasView,
    after: AtlasView,
    info: GlyphInfo,
)
    requires
        glyph_placed(measure, scale, unscaled, reply, before, after, info),
        obstacle(reply, before) is None,
        after.addressable(),
    ensures
        rect_sound(measure, scale, info.uv_rect),
        before.addressable(),
{
    if let Some(image) = drawable(reply) {
        let pos = before.position(image.width as nat, image.height as nat);
        assert(pos.0 + image.width <= before.width);
        assert(pos.1 + image.height <= after.height);
    }
}

} // verus!
