//! The fonts that are in use, and the texture that they share.

use crate::atlas::{AtlasView, TextureAtlas};
use crate::font_impl::{law_lookup, law_lookup_measures, FontImpl};
use crate::glyph::{GlyphError, GlyphImage, GlyphInfo};
use crate::measure::{measures_all, FontScale, Measure};
use crate::number::Float32;
use crate::render::{canvas, renders_all, Canvas};
use cosmic_text::Font as CosmicFont;
use vstd::prelude::*;

verus! {

/// The fonts that are in use, each under a number. All are drawn into the same
/// texture, and one font can be part of several [`crate::font::Font`]s.
///
/// `F` is the function that works out what a glyph measures in points, and `R` is the
/// function that rasterizes glyphs.
pub struct FontStore<F, R> {
    fonts: Vec<FontImpl>,
    atlas: TextureAtlas,
    measure: F,
    render: R,
}

impl<
    F: Fn(FontScale, Measure) -> Float32,
    R: Fn(&CosmicFont, u16, Float32) -> Option<GlyphImage>,
> FontStore<F, R> {
    /// The fonts.
    pub closed spec fn fonts(self) -> Seq<FontImpl> {
        self.fonts@
    }

    /// The texture.
    pub open spec fn atlas(self) -> AtlasView {
        self.canvas().atlas
    }

    /// The texture, and the images that are drawn into it.
    pub closed spec fn canvas(self) -> Canvas {
        canvas(self.atlas, self.render)
    }

    /// The function that works out measures.
    pub closed spec fn measure(self) -> F {
        self.measure
    }

    /// What every operation keeps.
    pub closed spec fn well_formed(self) -> bool {
        &&& self.atlas.well_formed()
        &&& measures_all(self.measure)
        &&& renders_all(self.render)
        &&& forall|i: int|
            0 <= i < self.fonts@.len() ==> (#[trigger] self.fonts@[i]).well_formed()
                && self.fonts@[i].measured_by(self.measure, self.atlas@)
    }

    /// The same fonts with the same glyphs, and the same texture.
    pub open spec fn unchanged(self, before: Self) -> bool {
        &&& self.fonts() == before.fonts()
        &&& self.canvas() == before.canvas()
        &&& self.measure() == before.measure()
    }

    /// All the fonts are still there, and no glyph that has been looked up before is
    /// gone or different.
    pub open spec fn extends(self, before: Self) -> bool {
        &&& self.measure() == before.measure()
        &&& before.fonts().len() <= self.fonts().len()
        &&& forall|i: int|
            0 <= i < before.fonts().len() ==> (#[trigger] self.fonts()[i]).extends(
                before.fonts()[i],
            )
    }

    /// A character has been looked up in one of the fonts.
    pub open spec fn looked_up(
        self,
        id: usize,
        c: char,
        result: Result<Option<GlyphInfo>, GlyphError>,
        after: Self,
    ) -> bool {
        &&& 0 <= id < self.fonts().len()
        &&& after.measure() == self.measure()
        &&& after.fonts() == self.fonts().update(id as int, after.fonts()[id as int])
        &&& self.fonts()[id as int].looked_up(
            c,
            self.measure(),
            self.canvas(),
            result,
            after.fonts()[id as int],
            after.canvas(),
        )
    }

    /// No fonts yet.
    pub fn new(atlas: TextureAtlas, measure: F, render: R) -> (store: Self)
        requires
            atlas.well_formed(),
            measures_all(measure),
            renders_all(render),
        ensures
            store.well_formed(),
            store.fonts() == Seq::<FontImpl>::empty(),
            store.canvas() == canvas(atlas, render),
            store.measure() == measure,
    {
        FontStore { fonts: Vec::new(), atlas, measure, render }
    }

    /// Adds a font and returns its number.
    pub fn insert(&mut self, font: FontImpl) -> (id: usize)
        requires
            old(self).well_formed(),
            font.well_formed(),
            font.measured_by(old(self).measure(), old(self).atlas()),
        ensures
            final(self).well_formed(),
            id == old(self).fonts().len(),
            final(self).fonts() == old(self).fonts().push(font),
            final(self).canvas() == old(self).canvas(),
            final(self).measure() == old(self).measure(),
    {
        let id: usize = self.fonts.len();
        self.fonts.push(font);
        id
    }

    /// How many fonts there are.
    pub fn len(&self) -> (len: usize)
        ensures
            len == self.fonts().len(),
    {
        self.fonts.len()
    }

    /// The font with this number.
    pub fn font(&self, id: usize) -> (font: &FontImpl)
        requires
            self.well_formed(),
            id < self.fonts().len(),
        ensures
            font.well_formed(),
            *font == self.fonts()[id as int],
    {
        &self.fonts[id]
    }

    /// The texture that the glyphs are drawn into.
    pub fn texture(&self) -> (atlas: &TextureAtlas)
        requires
            self.well_formed(),
        ensures
            atlas.well_formed(),
            atlas@ == self.atlas(),
    {
        &self.atlas
    }

    /// Looks up a character in the font with this number.
    pub fn glyph_info(&mut self, id: usize, c: char) -> (result: Result<
        Option<GlyphInfo>,
        GlyphError,
    >)
        requires
            old(self).well_formed(),
            id < old(self).fonts().len(),
        ensures
            final(self).well_formed(),
            old(self).looked_up(id, c, result, *final(self)),
    {
        let result = self.fonts[id].glyph_info(
            c,
            &self.measure,
            &self.render,
            &mut self.atlas,
        );
        assert(self.fonts() =~= old(self).fonts().update(id as int, self.fonts()[id as int]));
        proof {
            law_lookup_measures(
                old(self).fonts()[id as int],
                c,
                old(self).measure(),
                old(self).canvas(),
                result,
                self.fonts()[id as int],
                self.canvas(),
            );
            assert forall|i: int| 0 <= i < self.fonts().len() implies (
            #[trigger] self.fonts()[i]).measured_by(self.measure(), self.atlas()) by {
                if i != id {
                    let (font, atlas) = (self.fonts()[i], old(self).atlas());
                    assert(font == old(self).fonts()[i]);
                    assert(font.measured_by(self.measure(), atlas));
                    assert forall|d: char| #[trigger]
                        font.cache().contains_key(d) implies font.entry_measured(
                        self.measure(),
                        self.atlas(),
                        d,
                    ) by {
                        assert(font.entry_measured(self.measure(), atlas, d));
                    }
                }
            }
        }
        result
    }
}

/// What every operation keeps of a store holds of each of its fonts, and all their glyphs
/// were measured by the function of the store.
pub proof fn law_fonts_well_formed<
    F: Fn(FontScale, Measure) -> Float32,
    R: Fn(&CosmicFont, u16, Float32) -> Option<GlyphImage>,
>(
    store: FontStore<F, R>,
    id: usize,
)
    requires
        store.well_formed(),
        id < store.fonts().len(),
    ensures
        store.fonts()[id as int].well_formed(),
        store.fonts()[id as int].measured_by(store.measure(), store.atlas()),
{
}

/// What was said of one font holds of the store: a character is found in a font if
/// and only if the font supports it, and no glyph is lost or changed.
pub proof fn law_store_lookup<
    F: Fn(FontScale, Measure) -> Float32,
    R: Fn(&CosmicFont, u16, Float32) -> Option<GlyphImage>,
>(
    before: FontStore<F, R>,
    id: usize,
    c: char,
    result: Result<Option<GlyphInfo>, GlyphError>,
    after: FontStore<F, R>,
)
    requires
        before.well_formed(),
        before.looked_up(id, c, result, after),
    ensures
        result == Ok::<_, GlyphError>(None::<GlyphInfo>) <==> !before.fonts()[id as int].supports(
            c,
        ),
        result == Ok::<_, GlyphError>(None::<GlyphInfo>) ==> after.unchanged(before),
        result matches Ok(Some(info)) ==> {
            &&& after.fonts()[id as int].cache().contains_key(c)
            &&& after.fonts()[id as int].cache()[c] == info
        },
        result is Err ==> after.unchanged(before),
        after.extends(before),
{
    law_lookup(
        before.fonts()[id as int],
        c,
        before.measure(),
        before.canvas(),
        result,
        after.fonts()[id as int],
        after.canvas(),
    );
    if !(result matches Ok(Some(_))) {
        assert(after.fonts() =~= before.fonts());
    }
}

} // verus!
