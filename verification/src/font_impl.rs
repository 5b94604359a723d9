//! One font at one size.

use crate::atlas::{AtlasView, TextureAtlas};
use crate::cache;
use crate::cache::CharMap;
use crate::character::{invisible_char, is_invisible, is_scalar};
use crate::face;
use crate::face::{
    can_list, can_map, can_measure, font_advances, glyph_number, listed_code_points,
};
use crate::glyph::{reply_view, GlyphError, GlyphImage, GlyphInfo, ImageView};
use crate::measure::{measured, measures_all, FontScale, Measure, TAB_SIZE};
use crate::number::Float32;
use crate::placement::{
    glyph_placed, law_placed_rect_is_sound, obstacle, place_glyph, rect_sound,
};
use crate::render::{canvas, rendered, renders_all, Canvas};
use cosmic_text::Font as CosmicFont;
use std::sync::Arc;
use vstd::prelude::*;

verus! {

/// A specific font with a size.
/// The interface uses points as the unit for everything.
pub struct FontImpl {
    name: String,
    /// Is this one of the fonts that are delivered with the program?
    builtin: bool,
    /// Is this the font of that name that has icons?
    emoji_icons: bool,
    font: Arc<CosmicFont>,
    scale: FontScale,
    glyph_info_cache: CharMap<GlyphInfo>,
}

/// The name of the font that has wrong glyphs for some full-width letters.
pub open spec fn emoji_icon_font() -> Seq<char> {
    "emoji-icon-font"@
}

/// Is the name in the list?
pub open spec fn names_list(names: Seq<String>, name: Seq<char>) -> bool {
    exists|i: int| 0 <= i < names.len() && #[trigger] names[i]@ == name
}

/// Characters whose glyphs are not shown in a font that is delivered with the
/// program: a symbol with a second meaning, and what one vendor has put into the
/// private use area.
pub open spec fn is_stripped(c: char) -> bool {
    ||| c == '\u{534d}'
    ||| c == '\u{5350}'
    ||| c == '\u{E0FF}'
    ||| c == '\u{EFFD}'
    ||| c == '\u{F0FF}'
    ||| c == '\u{F200}'
}

/// The full-width capital letters from S to Y.
pub open spec fn is_wrong_icon(c: char) -> bool {
    '\u{FF33}' <= c && c <= '\u{FF39}'
}

/// Characters that are made from the space of the font: tab and thin space.
pub open spec fn is_made_of_space(c: char) -> bool {
    c == '\t' || c == '\u{2009}'
}

/// How wide such a character is, given the width of the space.
pub open spec fn space_measure(c: char, space: Float32) -> Measure {
    if c == '\t' {
        Measure::Tab { spaces: TAB_SIZE, space }
    } else {
        Measure::ThinSpace { space }
    }
}

impl FontImpl {
    /// The name of the font.
    pub closed spec fn name(self) -> Seq<char> {
        self.name@
    }

    /// Is the font one of those that are delivered with the program?
    pub closed spec fn builtin(self) -> bool {
        self.builtin
    }

    /// The tables of the font.
    pub closed spec fn font(self) -> CosmicFont {
        *self.font
    }

    /// The scale of the font.
    pub closed spec fn scale(self) -> FontScale {
        self.scale
    }

    /// The glyphs that have been looked up before.
    pub closed spec fn cache(self) -> Map<char, GlyphInfo> {
        self.glyph_info_cache@
    }

    /// The number of the glyph for a character, 0 if the font has none.
    pub open spec fn glyph_id(self, c: char) -> u16 {
        glyph_number(self.font(), c)
    }

    /// The glyph for a character cannot be looked up, for the tables of the font do not fit
    /// together: its number is not to be had, or its metrics are not.
    pub open spec fn unreadable(self, c: char) -> bool {
        !can_map(self.font(), c) || (self.glyph_id(c) != 0 && !can_measure(
            self.font(),
            self.glyph_id(c),
        ))
    }

    /// The tables of the font do not fit together where it would have to be looked up how
    /// the character is shown.
    pub open spec fn malformed(self, c: char) -> bool {
        if is_invisible(c) {
            false
        } else if is_made_of_space(c) {
            self.unreadable(' ') || (self.glyph_id(' ') == 0 && self.unreadable(c))
        } else {
            self.unreadable(c)
        }
    }

    /// Characters that are treated as if the font had no glyph for them.
    pub open spec fn ignores(self, c: char) -> bool {
        self.builtin() && (is_stripped(c) || (self.name() == emoji_icon_font() && is_wrong_icon(c)))
    }

    /// Is the character made from the space of this font?
    pub open spec fn uses_space(self, c: char) -> bool {
        is_made_of_space(c) && self.glyph_id(' ') != 0
    }

    /// Does the font have an answer for the character: a glyph, or, where its tables do not
    /// fit together, an error? No font shows a line break.
    pub open spec fn supports(self, c: char) -> bool {
        &&& c != '\n'
        &&& !self.ignores(c)
        &&& is_invisible(c) || self.malformed(c) || self.uses_space(c) || self.glyph_id(c) != 0
    }

    /// Can the character map of the font be listed, and are characters all that it lists?
    pub open spec fn lists_characters(self) -> bool {
        &&& can_list(self.font())
        &&& forall|i: int|
            0 <= i < listed_code_points(self.font()).len() ==> is_scalar(
                #[trigger] listed_code_points(self.font())[i],
            )
    }

    /// The characters that the character map lists, without those that are ignored.
    pub open spec fn listed(self) -> Seq<char> {
        listed_code_points(self.font()).map_values(|cp: u32| cp as char).filter(
            |c: char| !self.ignores(c),
        )
    }

    /// Everything but the glyphs that have been looked up is the same.
    pub open spec fn same_face(self, other: FontImpl) -> bool {
        &&& self.name() == other.name()
        &&& self.builtin() == other.builtin()
        &&& self.font() == other.font()
        &&& self.scale() == other.scale()
    }

    /// The same font, which has looked up some more glyphs.
    pub open spec fn extends(self, before: FontImpl) -> bool {
        &&& self.same_face(before)
        &&& before.cache().submap_of(self.cache())
    }

    /// What the cache holds for a character is right: the font supports the character, and
    /// its tables fit together there; if the character is invisible, the glyph has no width
    /// and no pixels; and if it is made from the space, it is painted like the space.
    pub open spec fn entry_ok(self, c: char) -> bool {
        &&& self.supports(c)
        &&& !self.malformed(c)
        &&& is_invisible(c) ==> self.cache()[c].is_blank()
        &&& self.uses_space(c) && !is_invisible(c) ==> {
            &&& self.cache().contains_key(' ')
            &&& self.cache()[c].uv_rect == self.cache()[' '].uv_rect
        }
    }

    /// The width that the cache holds for a character was measured: from the width of the
    /// space in the cache, if the character is made from the space, and otherwise from the
    /// advance width in the font.
    pub open spec fn width_measured<F: Fn(FontScale, Measure) -> Float32>(
        self,
        measure: F,
        c: char,
    ) -> bool {
        let quantity = if self.uses_space(c) {
            space_measure(c, self.cache()[' '].advance_width)
        } else {
            Measure::Advance {
                unscaled: Float32 { bits: font_advances(self.font())[self.glyph_id(c)] },
            }
        };
        let width = self.cache()[c].advance_width;
        !is_invisible(c) ==> measured(measure, self.scale(), quantity, width)
    }

    /// What the cache holds for a character was measured, the width and the rectangle.
    pub open spec fn entry_measured<F: Fn(FontScale, Measure) -> Float32>(
        self,
        measure: F,
        atlas: AtlasView,
        c: char,
    ) -> bool {
        &&& self.width_measured(measure, c)
        &&& atlas.addressable() ==> rect_sound(measure, self.scale(), self.cache()[c].uv_rect)
    }

    /// All that the cache holds was measured by this function and drawn into this texture.
    pub open spec fn measured_by<F: Fn(FontScale, Measure) -> Float32>(
        self,
        measure: F,
        atlas: AtlasView,
    ) -> bool {
        forall|c: char| #[trigger]
            self.cache().contains_key(c) ==> self.entry_measured(measure, atlas, c)
    }

    /// What every operation keeps.
    pub closed spec fn well_formed(self) -> bool {
        &&& self.emoji_icons == (self.name@ == emoji_icon_font())
        &&& forall|c: char| #[trigger] self.cache().contains_key(c) ==> self.entry_ok(c)
    }

    /// A glyph has been rasterized and placed in the texture.
    pub open spec fn allocated<F: Fn(FontScale, Measure) -> Float32>(
        self,
        glyph_id: u16,
        measure: F,
        before: Canvas,
        after: Canvas,
        info: GlyphInfo,
    ) -> bool {
        &&& after.renders == before.renders
        &&& exists|reply: Option<ImageView>|
            {
                &&& #[trigger] (before.renders)(
                    self.font(),
                    glyph_id,
                    self.scale().font_size,
                    reply,
                )
                &&& obstacle(reply, before.atlas) is None
                &&& glyph_placed(
                    measure,
                    self.scale(),
                    Float32 { bits: font_advances(self.font())[glyph_id] },
                    reply,
                    before.atlas,
                    after.atlas,
                    info,
                )
            }
    }

    /// A glyph has been rasterized, and its image cannot be drawn.
    pub open spec fn not_allocated(
        self,
        glyph_id: u16,
        before: Canvas,
        error: GlyphError,
    ) -> bool {
        exists|reply: Option<ImageView>|
            {
                &&& #[trigger] (before.renders)(
                    self.font(),
                    glyph_id,
                    self.scale().font_size,
                    reply,
                )
                &&& obstacle(reply, before.atlas) == Some(error)
            }
    }

    /// A glyph has been placed in the texture and put into the cache, or, if it
    /// cannot be drawn, nothing has changed.
    pub open spec fn plain_looked_up<F: Fn(FontScale, Measure) -> Float32>(
        self,
        c: char,
        measure: F,
        before: Canvas,
        result: Result<Option<GlyphInfo>, GlyphError>,
        after: FontImpl,
        after_canvas: Canvas,
    ) -> bool {
        match result {
            Ok(Some(info)) => {
                &&& self.allocated(self.glyph_id(c), measure, before, after_canvas, info)
                &&& after.same_face(self)
                &&& after.cache() == self.cache().insert(c, info)
            },
            Ok(None) => false,
            Err(error) => {
                &&& self.not_allocated(self.glyph_id(c), before, error)
                &&& after == self
                &&& after_canvas == before
            },
        }
    }

    /// The space has been looked up, and the character has been made from it; or, if
    /// the space cannot be drawn, nothing has changed.
    pub open spec fn made_of_space<F: Fn(FontScale, Measure) -> Float32>(
        self,
        c: char,
        measure: F,
        before: Canvas,
        result: Result<Option<GlyphInfo>, GlyphError>,
        after: FontImpl,
        after_canvas: Canvas,
    ) -> bool {
        match result {
            Ok(Some(info)) => {
                let space = after.cache()[' '];
                &&& if self.cache().contains_key(' ') {
                    space == self.cache()[' '] && after_canvas == before
                } else {
                    self.allocated(self.glyph_id(' '), measure, before, after_canvas, space)
                }
                &&& info.uv_rect == space.uv_rect
                &&& measured(
                    measure,
                    self.scale(),
                    space_measure(c, space.advance_width),
                    info.advance_width,
                )
                &&& after.same_face(self)
                &&& after.cache() == self.cache().insert(' ', space).insert(c, info)
            },
            Ok(None) => false,
            Err(error) => {
                &&& !self.cache().contains_key(' ')
                &&& self.not_allocated(self.glyph_id(' '), before, error)
                &&& after == self
                &&& after_canvas == before
            },
        }
    }

    /// What looking up a character gives, and what it does to the cache and to the
    /// texture.
    pub open spec fn looked_up<F: Fn(FontScale, Measure) -> Float32>(
        self,
        c: char,
        measure: F,
        before: Canvas,
        result: Result<Option<GlyphInfo>, GlyphError>,
        after: FontImpl,
        after_canvas: Canvas,
    ) -> bool {
        if self.cache().contains_key(c) {
            &&& result == Ok::<_, GlyphError>(Some(self.cache()[c]))
            &&& after == self
            &&& after_canvas == before
        } else if !self.supports(c) {
            &&& result == Ok::<_, GlyphError>(None::<GlyphInfo>)
            &&& after == self
            &&& after_canvas == before
        } else if is_invisible(c) {
            &&& result matches Ok(Some(info)) && info.is_blank() && after.cache()
                == self.cache().insert(c, info)
            &&& after.same_face(self)
            &&& after_canvas == before
        } else if self.malformed(c) {
            &&& result == Err::<Option<GlyphInfo>, _>(GlyphError::MalformedFont)
            &&& after == self
            &&& after_canvas == before
        } else if self.uses_space(c) {
            self.made_of_space(c, measure, before, result, after, after_canvas)
        } else {
            self.plain_looked_up(c, measure, before, result, after, after_canvas)
        }
    }
}

/// One more glyph is in the cache, and it was measured like the others.
proof fn lemma_one_more_measured<F: Fn(FontScale, Measure) -> Float32>(
    before: FontImpl,
    measure: F,
    atlas: AtlasView,
    c: char,
    info: GlyphInfo,
    after: FontImpl,
    after_atlas: AtlasView,
)
    requires
        before.well_formed(),
        before.measured_by(measure, atlas),
        !before.cache().contains_key(c),
        after.same_face(before),
        after.cache() == before.cache().insert(c, info),
        after_atlas.addressable() ==> atlas.addressable(),
        after.entry_measured(measure, after_atlas, c),
    ensures
        after.measured_by(measure, after_atlas),
{
    assert forall|d: char| #[trigger] after.cache().contains_key(d) implies after.entry_measured(
        measure,
        after_atlas,
        d,
    ) by {
        if d != c {
            assert(before.cache().contains_key(d));
            assert(before.entry_ok(d));
            assert(before.entry_measured(measure, atlas, d));
        }
    }
}

/// A glyph that has just been placed was measured.
proof fn lemma_allocated<F: Fn(FontScale, Measure) -> Float32>(
    font: FontImpl,
    glyph_id: u16,
    measure: F,
    before: Canvas,
    after: Canvas,
    info: GlyphInfo,
)
    requires
        font.allocated(glyph_id, measure, before, after, info),
    ensures
        measured(
            measure,
            font.scale(),
            Measure::Advance { unscaled: Float32 { bits: font_advances(font.font())[glyph_id] } },
            info.advance_width,
        ),
        after.atlas.addressable() ==> {
            &&& before.atlas.addressable()
            &&& rect_sound(measure, font.scale(), info.uv_rect)
        },
{
    let unscaled = Float32 { bits: font_advances(font.font())[glyph_id] };
    let reply = choose|reply: Option<ImageView>|
        {
            &&& #[trigger] (before.renders)(font.font(), glyph_id, font.scale().font_size, reply)
            &&& obstacle(reply, before.atlas) is None
            &&& glyph_placed(
                measure,
                font.scale(),
                unscaled,
                reply,
                before.atlas,
                after.atlas,
                info,
            )
        };
    if after.atlas.addressable() {
        law_placed_rect_is_sound(
            measure,
            font.scale(),
            unscaled,
            reply,
            before.atlas,
            after.atlas,
            info,
        );
    }
}

/// Looking up a character keeps that all glyphs in the cache were measured.
pub proof fn law_lookup_measures<F: Fn(FontScale, Measure) -> Float32>(
    before: FontImpl,
    c: char,
    measure: F,
    before_canvas: Canvas,
    result: Result<Option<GlyphInfo>, GlyphError>,
    after: FontImpl,
    after_canvas: Canvas,
)
    requires
        before.well_formed(),
        before.measured_by(measure, before_canvas.atlas),
        before.looked_up(c, measure, before_canvas, result, after, after_canvas),
    ensures
        after.measured_by(measure, after_canvas.atlas),
        after_canvas.atlas.addressable() ==> before_canvas.atlas.addressable(),
{
    let (atlas, after_atlas) = (before_canvas.atlas, after_canvas.atlas);
    if before.cache().contains_key(c) || !before.supports(c) || before.malformed(c) {
        assert(after.measured_by(measure, after_atlas));
    } else if is_invisible(c) {
        if let Ok(Some(info)) = result {
            lemma_one_more_measured(before, measure, atlas, c, info, after, after_atlas);
        }
    } else if before.uses_space(c) {
        if let Ok(Some(info)) = result {
            let space = after.cache()[' '];
            if before.cache().contains_key(' ') {
                assert(before.entry_measured(measure, atlas, ' '));
                assert(after.cache() =~= before.cache().insert(c, info));
                lemma_one_more_measured(before, measure, atlas, c, info, after, after_atlas);
            } else {
                lemma_allocated(
                    before,
                    before.glyph_id(' '),
                    measure,
                    before_canvas,
                    after_canvas,
                    space,
                );
                assert forall|d: char| #[trigger]
                    after.cache().contains_key(d) implies after.entry_measured(
                    measure,
                    after_atlas,
                    d,
                ) by {
                    if d != c && d != ' ' {
                        assert(before.cache().contains_key(d));
                        assert(before.entry_ok(d));
                        assert(before.entry_measured(measure, atlas, d));
                    }
                }
            }
        } else {
            assert(after.measured_by(measure, after_atlas));
        }
    } else {
        if let Ok(Some(info)) = result {
            let glyph_id = before.glyph_id(c);
            lemma_allocated(before, glyph_id, measure, before_canvas, after_canvas, info);
            lemma_one_more_measured(before, measure, atlas, c, info, after, after_atlas);
        } else {
            assert(after.measured_by(measure, after_atlas));
        }
    }
}

impl FontImpl {
    /// A font at one scale. `builtin_font_names` are the names of the fonts that are
    /// delivered with the program.
    pub fn new(
        name: String,
        font: Arc<CosmicFont>,
        scale: FontScale,
        builtin_font_names: &Vec<String>,
    ) -> (font_impl: Self)
        requires
            scale.pixels_per_point.is_positive(),
        ensures
            font_impl.well_formed(),
            font_impl.name() == name@,
            font_impl.builtin() == names_list(builtin_font_names@, name@),
            font_impl.font() == *font,
            font_impl.scale() == scale,
            font_impl.cache() == Map::<char, GlyphInfo>::empty(),
    {
        let mut builtin = false;
        let mut i: usize = 0;
        while i < builtin_font_names.len()
            invariant
                i <= builtin_font_names@.len(),
                builtin == exists|j: int|
                    0 <= j < i && #[trigger] builtin_font_names@[j]@ == name@,
            decreases builtin_font_names@.len() - i,
        {
            if builtin_font_names[i] == name {
                builtin = true;
            }
            i = i + 1;
        }
        let emoji_icons = name == "emoji-icon-font".to_owned();
        FontImpl {
            name,
            builtin,
            emoji_icons,
            font,
            scale,
            glyph_info_cache: CharMap::default(),
        }
    }

    /// Code points that will always be replaced by the replacement character.
    ///
    /// See also [`invisible_char`].
    pub fn ignore_character(&self, chr: char) -> (ignored: bool)
        requires
            self.well_formed(),
        ensures
            ignored == self.ignores(chr),
    {
        if !self.builtin {
            return false;
        }
        if self.emoji_icons {
            // Don't show the wrong fullwidth capital letters:
            if '\u{FF33}' <= chr && chr <= '\u{FF39}' {
                return true;
            }
        }
        matches!(
            chr,
            // Strip out a religious symbol with secondary nefarious interpretation:
            '\u{534d}' | '\u{5350}' |

            // Ignore ubuntu-specific stuff in `Ubuntu-Light.ttf`:
            '\u{E0FF}' | '\u{EFFD}' | '\u{F0FF}' | '\u{F200}'
        )
    }

    /// The characters that the character map lists, without those that are ignored,
    /// in its order; `None` if it lists something that is no character, or cannot be listed.
    pub fn characters(&self) -> (characters: Option<Vec<char>>)
        requires
            self.well_formed(),
        ensures
            characters is Some <==> self.lists_characters(),
            characters matches Some(chars) ==> chars@ == self.listed(),
    {
        let code_points = match face::find_code_points(&self.font) {
            Some(code_points) => code_points,
            None => {
                return None;
            },
        };
        let mut chars: Vec<char> = Vec::new();
        let ghost all = code_points@.map_values(|cp: u32| cp as char);
        let ghost shown = |c: char| !self.ignores(c);
        let mut i: usize = 0;
        while i < code_points.len()
            invariant
                self.well_formed(),
                can_list(self.font()),
                code_points@ == listed_code_points(self.font()),
                all == code_points@.map_values(|cp: u32| cp as char),
                shown == (|c: char| !self.ignores(c)),
                i <= code_points@.len(),
                forall|j: int| 0 <= j < i ==> is_scalar(#[trigger] code_points@[j]),
                chars@ == all.take(i as int).filter(shown),
            decreases code_points@.len() - i,
        {
            match char::from_u32(code_points[i]) {
                None => {
                    return None;
                },
                Some(chr) => {
                    proof {
                        reveal(Seq::filter);
                        assert(all.take(i + 1).drop_last() =~= all.take(i as int));
                        assert(all.take(i + 1).last() == chr);
                    }
                    if !self.ignore_character(chr) {
                        chars.push(chr);
                    }
                },
            }
            i = i + 1;
        }
        assert(all.take(i as int) =~= all);
        Some(chars)
    }

    /// Height of one row of text in points.
    pub fn row_height(&self) -> (height: Float32)
        ensures
            height == self.scale().height_in_points,
    {
        self.scale.height_in_points
    }

    /// Physical pixels in one point.
    pub fn pixels_per_point(&self) -> (pixels_per_point: Float32)
        ensures
            pixels_per_point == self.scale().pixels_per_point,
    {
        self.scale.pixels_per_point
    }

    /// This is the distance from the top to the baseline.
    ///
    /// Unit: points.
    pub fn ascent(&self) -> (ascent: Float32)
        ensures
            ascent == self.scale().ascent,
    {
        self.scale.ascent
    }

    /// Rasterizes a glyph and places it in the texture.
    pub fn allocate_glyph<
        F: Fn(FontScale, Measure) -> Float32,
        R: Fn(&CosmicFont, u16, Float32) -> Option<GlyphImage>,
    >(
        &self,
        glyph_id: u16,
        measure: &F,
        render: &R,
        atlas: &mut TextureAtlas,
    ) -> (result: Result<GlyphInfo, GlyphError>)
        requires
            old(atlas).well_formed(),
            measures_all(*measure),
            renders_all(*render),
        ensures
            final(atlas).well_formed(),
            if !can_measure(self.font(), glyph_id) {
                &&& result == Err::<GlyphInfo, _>(GlyphError::MalformedFont)
                &&& final(atlas)@ == old(atlas)@
            } else {
                match result {
                    Ok(info) => self.allocated(
                        glyph_id,
                        *measure,
                        canvas(*old(atlas), *render),
                        canvas(*final(atlas), *render),
                        info,
                    ),
                    Err(error) => {
                        &&& self.not_allocated(glyph_id, canvas(*old(atlas), *render), error)
                        &&& final(atlas)@ == old(atlas)@
                    },
                }
            },
    {
        let unscaled = match face::find_advance(&self.font, glyph_id) {
            Some(unscaled) => unscaled,
            None => {
                return Err(GlyphError::MalformedFont);
            },
        };
        let ghost before = canvas(*atlas, *render);
        let reply = (*render)(&self.font, glyph_id, self.scale.font_size);
        let ghost seen = reply_view(reply);
        assert(rendered(*render, self.font(), glyph_id, self.scale().font_size, seen));
        assert((before.renders)(self.font(), glyph_id, self.scale().font_size, seen));
        place_glyph(measure, self.scale, unscaled, reply, atlas)
    }

    /// Puts a glyph into the cache.
    fn remember(&mut self, c: char, info: GlyphInfo)
        requires
            old(self).well_formed(),
            !old(self).cache().contains_key(c),
            old(self).supports(c),
            !old(self).malformed(c),
            is_invisible(c) ==> info.is_blank(),
            old(self).uses_space(c) && !is_invisible(c) ==> {
                &&& old(self).cache().contains_key(' ')
                &&& info.uv_rect == old(self).cache()[' '].uv_rect
            },
        ensures
            final(self).well_formed(),
            final(self).same_face(*old(self)),
            final(self).cache() == old(self).cache().insert(c, info),
    {
        let ghost before = *self;
        cache::store(&mut self.glyph_info_cache, c, info);
        proof {
            assert forall|d: char| #[trigger] self.cache().contains_key(d) implies self.entry_ok(
                d,
            ) by {
                if d != c {
                    assert(before.cache().contains_key(d));
                }
            }
        }
    }

    /// Makes a character from the space of the font, and puts it into the cache.
    fn make_of_space<F: Fn(FontScale, Measure) -> Float32>(
        &mut self,
        c: char,
        quantity: Measure,
        space: GlyphInfo,
        measure: &F,
    ) -> (info: GlyphInfo)
        requires
            old(self).well_formed(),
            measures_all(*measure),
            is_made_of_space(c),
            quantity == space_measure(c, space.advance_width),
            !old(self).cache().contains_key(c),
            !old(self).ignores(c),
            old(self).cache().contains_key(' '),
            old(self).cache()[' '] == space,
        ensures
            final(self).well_formed(),
            final(self).same_face(*old(self)),
            final(self).cache() == old(self).cache().insert(c, info),
            info.uv_rect == space.uv_rect,
            measured(*measure, old(self).scale(), quantity, info.advance_width),
    {
        assert(self.entry_ok(' '));
        let advance_width = (*measure)(self.scale, quantity);
        let glyph_info = GlyphInfo { advance_width, ..space };
        self.remember(c, glyph_info);
        glyph_info
    }

    /// `\n` will result in `None`
    pub fn glyph_info<
        F: Fn(FontScale, Measure) -> Float32,
        R: Fn(&CosmicFont, u16, Float32) -> Option<GlyphImage>,
    >(
        &mut self,
        c: char,
        measure: &F,
        render: &R,
        atlas: &mut TextureAtlas,
    ) -> (result: Result<Option<GlyphInfo>, GlyphError>)
        requires
            old(self).well_formed(),
            old(atlas).well_formed(),
            measures_all(*measure),
            renders_all(*render),
        ensures
            final(self).well_formed(),
            final(atlas).well_formed(),
            old(self).looked_up(
                c,
                *measure,
                canvas(*old(atlas), *render),
                result,
                *final(self),
                canvas(*final(atlas), *render),
            ),
        decreases is_made_of_space(c) as int,
    {
        if let Some(glyph_info) = cache::lookup(&self.glyph_info_cache, c) {
            return Ok(Some(glyph_info));
        }
        if self.ignore_character(c) {
            return Ok(None);  // these will result in the replacement character when rendering
        }
        if c == '\n' {
            return Ok(None);
        }
        let ghost before = *self;
        if c == '\t' {
            if let Some(space) = self.glyph_info(' ', measure, render, atlas)? {
                let quantity = Measure::Tab { spaces: TAB_SIZE, space: space.advance_width };
                let glyph_info = self.make_of_space(c, quantity, space, measure);
                assert(self.cache() =~= before.cache().insert(' ', space).insert(c, glyph_info));
                return Ok(Some(glyph_info));
            }
        }
        if c == '\u{2009}' {
            // Thin space, often used as thousands deliminator: 1 234 567 890
            if let Some(space) = self.glyph_info(' ', measure, render, atlas)? {
                let quantity = Measure::ThinSpace { space: space.advance_width };
                let glyph_info = self.make_of_space(c, quantity, space, measure);
                assert(self.cache() =~= before.cache().insert(' ', space).insert(c, glyph_info));
                return Ok(Some(glyph_info));
            }
        }
        if invisible_char(c) {
            let glyph_info = GlyphInfo::default();
            self.remember(c, glyph_info);
            return Ok(Some(glyph_info));
        }
        // Add new character:
        let glyph_id = match face::find_glyph(&self.font, c) {
            Some(glyph_id) => glyph_id,
            None => {
                return Err(GlyphError::MalformedFont);
            },
        };
        if glyph_id == 0 {
            Ok(None)  // unsupported character
        } else {
            let glyph_info = self.allocate_glyph(glyph_id, measure, render, atlas)?;
            self.remember(c, glyph_info);
            Ok(Some(glyph_info))
        }
    }
}

/// What is in the cache of a font is right.
pub proof fn law_cache_is_right(font: FontImpl, c: char)
    requires
        font.well_formed(),
        font.cache().contains_key(c),
    ensures
        font.entry_ok(c),
{
}

/// A font shows a character if and only if it supports it; what it shows is in its
/// cache afterwards; and nothing that was in its cache is lost or changed.
pub proof fn law_lookup<F: Fn(FontScale, Measure) -> Float32>(
    before: FontImpl,
    c: char,
    measure: F,
    before_canvas: Canvas,
    result: Result<Option<GlyphInfo>, GlyphError>,
    after: FontImpl,
    after_canvas: Canvas,
)
    requires
        before.well_formed(),
        before.looked_up(c, measure, before_canvas, result, after, after_canvas),
    ensures
        result == Ok::<_, GlyphError>(None::<GlyphInfo>) <==> !before.supports(c),
        result matches Ok(Some(info)) ==> {
            &&& after.cache().contains_key(c)
            &&& after.cache()[c] == info
        },
        after.extends(before),
{
    if before.cache().contains_key(c) {
        law_cache_is_right(before, c);
    }
}

} // verus!
