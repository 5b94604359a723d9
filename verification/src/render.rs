//! The function that rasterizes glyphs, and what they are drawn into.

use crate::atlas::{AtlasView, TextureAtlas};
use crate::glyph::{reply_view, GlyphImage, ImageView};
use crate::number::Float32;
use cosmic_text::Font as CosmicFont;
use vstd::prelude::*;

verus! {

/// May `reply` be what `render` gives for a glyph of a font at a font size, in pixels per
/// em? It is the image of the glyph, drawn at the origin, or nothing.
///
/// The functions of this crate take a function that does the rasterizing, and hold for
/// every such function: it may load faces from where they are stored, and need not give
/// the same image twice.
pub open spec fn rendered<R: Fn(&CosmicFont, u16, Float32) -> Option<GlyphImage>>(
    render: R,
    font: CosmicFont,
    glyph_id: u16,
    font_size: Float32,
    reply: Option<ImageView>,
) -> bool {
    exists|image: Option<GlyphImage>|
        {
            &&& #[trigger] call_ensures(render, (&font, glyph_id, font_size), image)
            &&& reply_view(image) == reply
        }
}

/// Can `render` be asked for every glyph of every font at every size?
pub open spec fn renders_all<R: Fn(&CosmicFont, u16, Float32) -> Option<GlyphImage>>(
    render: R,
) -> bool {
    forall|font: &CosmicFont, glyph_id: u16, font_size: Float32| #[trigger]
        call_requires(render, (font, glyph_id, font_size))
}

/// What glyphs are drawn into, and which images may be drawn, as a mathematical value.
pub struct Canvas {
    /// The texture.
    pub atlas: AtlasView,
    /// May this image come back for a glyph of a font at a font size?
    pub renders: spec_fn(CosmicFont, u16, Float32, Option<ImageView>) -> bool,
}

/// The texture, and the images that come from a function that rasterizes.
pub open spec fn canvas<R: Fn(&CosmicFont, u16, Float32) -> Option<GlyphImage>>(
    atlas: TextureAtlas,
    render: R,
) -> Canvas {
    Canvas {
        atlas: atlas@,
        renders: |font: CosmicFont, glyph_id: u16, font_size: Float32, reply: Option<ImageView>|
            rendered(render, font, glyph_id, font_size, reply),
    }
}

} // verus!
