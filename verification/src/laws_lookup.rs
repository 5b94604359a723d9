//! What one font gives for a character, said of the character map and the advance widths of
//! the font, of what the rasterizer gives for a glyph, and of the texture before and after.

use crate::atlas::{AtlasView, TextureAtlas};
use crate::character::invisible_char;
use crate::face::{font_advances, font_charmap, font_code_points, font_data, font_directory};
use crate::font_impl::{law_cache_is_right, FontImpl};
use crate::glyph::{GlyphError, GlyphImage, GlyphInfo, ImageView};
use crate::laws_drawing::{all_zero, cannot_be_drawn, drawn, lemma_drawn, picture};
use crate::measure::{FontScale, Measure};
use crate::number::Float32;
use crate::render::{canvas, rendered};
use crate::tables::{charmap_lists, charmap_maps, charmap_truncated, metrics_in_order};
use cosmic_text::Font as CosmicFont;
use std::sync::Arc;
use vstd::prelude::*;

verus! {

/// Exactly these characters are invisible: the carriage return, the zero-width characters
/// from U+200B to U+200F, the directional ones from U+202A to U+202E, those from U+2060 to
/// U+2064 and from U+2066 to U+206F, and the byte order mark. No letter, digit or space is.
pub proof fn law_invisible_characters(c: char, invisible: bool)
    requires
        call_ensures(invisible_char, (c,), invisible),
    ensures
        invisible <==> {
            let number = c as u32;
            ||| number == 0x0D
            ||| 0x200B <= number && number <= 0x200F
            ||| 0x202A <= number && number <= 0x202E
            ||| 0x2060 <= number && number <= 0x2064
            ||| 0x2066 <= number && number <= 0x206F
            ||| number == 0xFEFF
        },
        0x20 <= c as u32 <= 0x7E ==> !invisible,
        0xA0 <= c as u32 <= 0x1FFF ==> !invisible,
        0x3000 <= c as u32 <= 0xD7FF ==> !invisible,
{
}

/// Exactly these characters are ignored, and only by fonts that are delivered with the
/// program: two symbols, four characters of the private use area, and, by the font of that
/// name that has icons, the full-width letters from S to Y.
pub proof fn law_ignored_characters(font: FontImpl, c: char, ignored: bool)
    requires
        font.well_formed(),
        call_ensures(FontImpl::ignore_character, (&font, c), ignored),
    ensures
        ignored <==> font.builtin() && {
            ||| c as u32 == 0x534D || c as u32 == 0x5350
            ||| c as u32 == 0xE0FF || c as u32 == 0xEFFD
            ||| c as u32 == 0xF0FF || c as u32 == 0xF200
            ||| font.name() == "emoji-icon-font"@ && 0xFF33 <= c as u32 && c as u32 <= 0xFF39
        },
{
}

/// A new font has the name, the face and the scale that it was made with, and no glyphs. It
/// counts as delivered with the program if and only if its name is in the list.
pub proof fn law_new_font(
    name: String,
    face: Arc<CosmicFont>,
    scale: FontScale,
    names: Vec<String>,
    font: FontImpl,
)
    requires
        call_ensures(FontImpl::new, (name, face, scale, &names), font),
    ensures
        font.well_formed(),
        font.name() == name@,
        font.font() == *face,
        font.scale() == scale,
        forall|c: char| !#[trigger] font.cache().contains_key(c),
        font.builtin() <==> exists|i: int| 0 <= i < names@.len() && #[trigger] names@[i]@ == name@,
{
}

/// The measures of a font are those of its scale.
pub proof fn law_font_measures(
    font: FontImpl,
    height: Float32,
    pixels_per_point: Float32,
    ascent: Float32,
)
    requires
        call_ensures(FontImpl::row_height, (&font,), height),
        call_ensures(FontImpl::pixels_per_point, (&font,), pixels_per_point),
        call_ensures(FontImpl::ascent, (&font,), ascent),
    ensures
        height == font.scale().height_in_points,
        pixels_per_point == font.scale().pixels_per_point,
        ascent == font.scale().ascent,
{
}

/// The characters that are shown as nothing.
pub open spec fn formats(c: char) -> bool {
    let number = c as u32;
    ||| number == 0x0D
    ||| 0x200B <= number <= 0x200F
    ||| 0x202A <= number <= 0x202E
    ||| 0x2060 <= number <= 0x2064
    ||| 0x2066 <= number <= 0x206F
    ||| number == 0xFEFF
}

/// The characters that a font leaves to other fonts, whatever its character map holds.
pub open spec fn leaves_out(font: FontImpl, c: char) -> bool {
    let number = c as u32;
    font.builtin() && {
        ||| number == 0x534D || number == 0x5350
        ||| number == 0xE0FF || number == 0xEFFD
        ||| number == 0xF0FF || number == 0xF200
        ||| font.name() == "emoji-icon-font"@ && 0xFF33 <= number <= 0xFF39
    }
}

/// The character map can be read at this character, and has a glyph for it.
pub open spec fn mapped(face: CosmicFont, c: char) -> bool {
    &&& charmap_maps(font_data(face), font_directory(face), c as int)
    &&& !charmap_truncated(font_data(face), font_directory(face))
    &&& font_charmap(face).contains_key(c)
    &&& font_charmap(face)[c] != 0
}

/// The character map can be read at this character, and has no glyph for it.
pub open spec fn unmapped(face: CosmicFont, c: char) -> bool {
    &&& charmap_maps(font_data(face), font_directory(face), c as int)
    &&& charmap_truncated(font_data(face), font_directory(face)) || !font_charmap(
        face,
    ).contains_key(c) || font_charmap(face)[c] == 0
}

/// The metrics of a glyph can be read.
pub open spec fn measurable(face: CosmicFont, glyph_id: u16) -> bool {
    metrics_in_order(font_data(face), font_directory(face), glyph_id)
}

/// Is the character shown by its own glyph, if at all? It is neither a line break nor
/// invisible, the font does not leave it out, and it is not made of the space.
pub open spec fn shown_by_glyph(font: FontImpl, c: char) -> bool {
    &&& c as u32 != 0x0A
    &&& !formats(c)
    &&& !leaves_out(font, c)
    &&& (c as u32 != 0x09 && c as u32 != 0x2009) || unmapped(font.font(), ' ')
}

/// Does the font have no answer for the character, neither a glyph nor an error? It is a line
/// break, or the font leaves it out, or the character map has no glyph to show it by.
pub open spec fn passes(font: FontImpl, c: char) -> bool {
    ||| c as u32 == 0x0A
    ||| leaves_out(font, c)
    ||| shown_by_glyph(font, c) && unmapped(font.font(), c)
}

/// A font supports exactly the characters that it has an answer for.
pub proof fn law_passed_characters(font: FontImpl, c: char)
    ensures
        passes(font, c) <==> !font.supports(c),
{
}

/// The rasterizer was asked for the glyph of the face at the font size, and what it gave
/// has been drawn; the width is that of the same glyph.
pub open spec fn glyph_drawn<
    F: Fn(FontScale, Measure) -> Float32,
    R: Fn(&CosmicFont, u16, Float32) -> Option<GlyphImage>,
>(
    measure: F,
    render: R,
    face: CosmicFont,
    scale: FontScale,
    glyph_id: u16,
    before: AtlasView,
    after: AtlasView,
    info: GlyphInfo,
) -> bool {
    exists|reply: Option<GlyphImage>|
        {
            &&& #[trigger] call_ensures(render, (&face, glyph_id, scale.font_size), reply)
            &&& drawn(
                measure,
                scale,
                font_advances(face)[glyph_id],
                match reply {
                    Some(image) => Some(picture(image)),
                    None => None,
                },
                before,
                after,
                info,
            )
        }
}

/// The rasterizer was asked for the glyph of the face at the font size, and what it gave
/// cannot be drawn.
pub open spec fn glyph_refused<R: Fn(&CosmicFont, u16, Float32) -> Option<GlyphImage>>(
    render: R,
    face: CosmicFont,
    scale: FontScale,
    glyph_id: u16,
    atlas: AtlasView,
) -> bool {
    exists|image: GlyphImage|
        {
            &&& #[trigger] call_ensures(
                render,
                (&face, glyph_id, scale.font_size),
                Some(image),
            )
            &&& cannot_be_drawn(Some(picture(image)), atlas)
        }
}

/// What has been placed in the texture came from the rasterizer.
proof fn lemma_allocated_glyph<
    F: Fn(FontScale, Measure) -> Float32,
    R: Fn(&CosmicFont, u16, Float32) -> Option<GlyphImage>,
>(
    font: FontImpl,
    glyph_id: u16,
    measure: F,
    render: R,
    before: TextureAtlas,
    after: TextureAtlas,
    info: GlyphInfo,
)
    requires
        font.allocated(glyph_id, measure, canvas(before, render), canvas(after, render), info),
    ensures
        glyph_drawn(
            measure,
            render,
            font.font(),
            font.scale(),
            glyph_id,
            before@,
            after@,
            info,
        ),
{
    let (face, scale) = (font.font(), font.scale());
    let unscaled = font_advances(face)[glyph_id];
    let seen = choose|reply: Option<ImageView>|
        {
            &&& #[trigger] (canvas(before, render).renders)(face, glyph_id, scale.font_size, reply)
            &&& crate::placement::obstacle(reply, before@) is None
            &&& crate::placement::glyph_placed(
                measure,
                scale,
                Float32 { bits: unscaled },
                reply,
                before@,
                after@,
                info,
            )
        };
    lemma_drawn(measure, scale, unscaled, seen, before@, after@, info);
    assert(rendered(render, face, glyph_id, scale.font_size, seen));
    let reply = choose|reply: Option<GlyphImage>|
        {
            &&& #[trigger] call_ensures(render, (&face, glyph_id, scale.font_size), reply)
            &&& crate::glyph::reply_view(reply) == seen
        };
    assert(call_ensures(render, (&face, glyph_id, scale.font_size), reply));
}

/// What has not been placed in the texture came from the rasterizer, too.
proof fn lemma_refused_glyph<R: Fn(&CosmicFont, u16, Float32) -> Option<GlyphImage>>(
    font: FontImpl,
    glyph_id: u16,
    render: R,
    before: TextureAtlas,
    error: GlyphError,
)
    requires
        font.not_allocated(glyph_id, canvas(before, render), error),
    ensures
        glyph_refused(render, font.font(), font.scale(), glyph_id, before@),
        error != GlyphError::MalformedFont,
{
    let (face, scale) = (font.font(), font.scale());
    let seen = choose|reply: Option<ImageView>|
        {
            &&& #[trigger] (canvas(before, render).renders)(face, glyph_id, scale.font_size, reply)
            &&& crate::placement::obstacle(reply, before@) == Some(error)
        };
    assert(rendered(render, face, glyph_id, scale.font_size, seen));
    let reply = choose|reply: Option<GlyphImage>|
        {
            &&& #[trigger] call_ensures(render, (&face, glyph_id, scale.font_size), reply)
            &&& crate::glyph::reply_view(reply) == seen
        };
    let image = reply->0;
    assert(call_ensures(render, (&face, glyph_id, scale.font_size), Some(image)));
    assert(cannot_be_drawn(Some(picture(image)), before@));
}

/// A glyph that is allocated is the one that was asked for: its width is that of this glyph,
/// and the rasterizer is asked for this glyph of this face at the font size. It is refused
/// only if the metrics cannot be read, or if the rasterizer gives what cannot be drawn.
pub proof fn law_allocated_glyph<
    F: Fn(FontScale, Measure) -> Float32,
    R: Fn(&CosmicFont, u16, Float32) -> Option<GlyphImage>,
>(
    font: FontImpl,
    glyph_id: u16,
    measure: F,
    render: R,
    atlas: &mut TextureAtlas,
    result: Result<GlyphInfo, GlyphError>,
)
    requires
        call_ensures(
            FontImpl::allocate_glyph::<F, R>,
            (&font, glyph_id, &measure, &render, atlas),
            result,
        ),
    ensures
        result is Err ==> final(atlas)@ == old(atlas)@,
        result == Err::<GlyphInfo, _>(GlyphError::MalformedFont) <==> !measurable(
            font.font(),
            glyph_id,
        ),
        result matches Ok(info) ==> glyph_drawn(
            measure,
            render,
            font.font(),
            font.scale(),
            glyph_id,
            old(atlas)@,
            final(atlas)@,
            info,
        ),
        result is Err && measurable(font.font(), glyph_id) ==> glyph_refused(
            render,
            font.font(),
            font.scale(),
            glyph_id,
            old(atlas)@,
        ),
{
    match result {
        Ok(info) => {
            lemma_allocated_glyph(
                font,
                glyph_id,
                measure,
                render,
                *old(atlas),
                *final(atlas),
                info,
            );
        },
        Err(error) => {
            if measurable(font.font(), glyph_id) {
                lemma_refused_glyph(font, glyph_id, render, *old(atlas), error);
            }
        },
    }
}

/// A visible character that the character map has a glyph for is shown by that very glyph:
/// it is as wide as is worked out from the advance width of this glyph, and its picture is
/// what the rasterizer gives for this glyph. There is always an answer, and afterwards the
/// font remembers it, and nothing else but what it remembered before.
pub proof fn law_mapped_character<
    F: Fn(FontScale, Measure) -> Float32,
    R: Fn(&CosmicFont, u16, Float32) -> Option<GlyphImage>,
>(
    font: &mut FontImpl,
    c: char,
    measure: F,
    render: R,
    atlas: &mut TextureAtlas,
    result: Result<Option<GlyphInfo>, GlyphError>,
)
    requires
        old(font).well_formed(),
        call_ensures(
            FontImpl::glyph_info::<F, R>,
            (font, c, &measure, &render, atlas),
            result,
        ),
        !old(font).cache().contains_key(c),
        shown_by_glyph(*old(font), c),
        mapped(old(font).font(), c),
    ensures
        measurable(old(font).font(), font_charmap(old(font).font())[c]) ==> match result {
            Ok(Some(info)) => {
                &&& glyph_drawn(
                    measure,
                    render,
                    old(font).font(),
                    old(font).scale(),
                    font_charmap(old(font).font())[c],
                    old(atlas)@,
                    final(atlas)@,
                    info,
                )
                &&& final(font).cache() == old(font).cache().insert(c, info)
                &&& final(font).font() == old(font).font()
                &&& final(font).scale() == old(font).scale()
                &&& final(font).name() == old(font).name()
                &&& final(font).builtin() == old(font).builtin()
            },
            Ok(None) => false,
            Err(error) => {
                &&& glyph_refused(
                    render,
                    old(font).font(),
                    old(font).scale(),
                    font_charmap(old(font).font())[c],
                    old(atlas)@,
                )
                &&& error != GlyphError::MalformedFont
            },
        },
        !measurable(old(font).font(), font_charmap(old(font).font())[c]) ==> result == Err::<
            Option<GlyphInfo>,
            _,
        >(GlyphError::MalformedFont),
        result is Err ==> *final(font) == *old(font) && final(atlas)@ == old(atlas)@,
{
    let face = old(font).font();
    let glyph_id = font_charmap(face)[c];
    assert(old(font).glyph_id(c) == glyph_id);
    if measurable(face, glyph_id) {
        match result {
            Ok(Some(info)) => {
                lemma_allocated_glyph(
                    *old(font),
                    glyph_id,
                    measure,
                    render,
                    *old(atlas),
                    *final(atlas),
                    info,
                );
            },
            Ok(None) => {},
            Err(error) => {
                lemma_refused_glyph(*old(font), glyph_id, render, *old(atlas), error);
            },
        }
    }
}

/// Two visible characters that the character map gives different glyphs are rasterized and
/// measured from different glyphs.
pub proof fn law_different_glyphs<
    F: Fn(FontScale, Measure) -> Float32,
    R: Fn(&CosmicFont, u16, Float32) -> Option<GlyphImage>,
>(
    font: &mut FontImpl,
    c: char,
    atlas: &mut TextureAtlas,
    of_c: GlyphInfo,
    other_font: &mut FontImpl,
    d: char,
    other_atlas: &mut TextureAtlas,
    of_d: GlyphInfo,
    measure: F,
    render: R,
)
    requires
        old(font).well_formed(),
        old(other_font).well_formed(),
        old(other_font).font() == old(font).font(),
        call_ensures(
            FontImpl::glyph_info::<F, R>,
            (font, c, &measure, &render, atlas),
            Ok::<_, GlyphError>(Some(of_c)),
        ),
        call_ensures(
            FontImpl::glyph_info::<F, R>,
            (other_font, d, &measure, &render, other_atlas),
            Ok::<_, GlyphError>(Some(of_d)),
        ),
        !old(font).cache().contains_key(c),
        !old(other_font).cache().contains_key(d),
        shown_by_glyph(*old(font), c),
        shown_by_glyph(*old(other_font), d),
        mapped(old(font).font(), c),
        mapped(old(font).font(), d),
        font_charmap(old(font).font())[c] != font_charmap(old(font).font())[d],
    ensures
        exists|m: u16, n: u16|
            {
                &&& m != n
                &&& #[trigger] glyph_drawn(
                    measure,
                    render,
                    old(font).font(),
                    old(font).scale(),
                    m,
                    old(atlas)@,
                    final(atlas)@,
                    of_c,
                )
                &&& #[trigger] glyph_drawn(
                    measure,
                    render,
                    old(font).font(),
                    old(other_font).scale(),
                    n,
                    old(other_atlas)@,
                    final(other_atlas)@,
                    of_d,
                )
            },
{
    let face = old(font).font();
    let (m, n) = (font_charmap(face)[c], font_charmap(face)[d]);
    assert(old(font).glyph_id(c) == m && old(other_font).glyph_id(d) == n);
    lemma_allocated_glyph(*old(font), m, measure, render, *old(atlas), *final(atlas), of_c);
    lemma_allocated_glyph(
        *old(other_font),
        n,
        measure,
        render,
        *old(other_atlas),
        *final(other_atlas),
        of_d,
    );
}

/// A visible character that the character map has no glyph for gets none, and nothing
/// changes.
pub proof fn law_unmapped_character<
    F: Fn(FontScale, Measure) -> Float32,
    R: Fn(&CosmicFont, u16, Float32) -> Option<GlyphImage>,
>(
    font: &mut FontImpl,
    c: char,
    measure: F,
    render: R,
    atlas: &mut TextureAtlas,
    result: Result<Option<GlyphInfo>, GlyphError>,
)
    requires
        old(font).well_formed(),
        call_ensures(
            FontImpl::glyph_info::<F, R>,
            (font, c, &measure, &render, atlas),
            result,
        ),
        !old(font).cache().contains_key(c),
        shown_by_glyph(*old(font), c),
        unmapped(old(font).font(), c),
    ensures
        result == Ok::<_, GlyphError>(None::<GlyphInfo>),
        *final(font) == *old(font),
        final(atlas)@ == old(atlas)@,
{
}

/// Where the character map cannot be read at a visible character, there is an error, and
/// nothing changes.
pub proof fn law_unreadable_character<
    F: Fn(FontScale, Measure) -> Float32,
    R: Fn(&CosmicFont, u16, Float32) -> Option<GlyphImage>,
>(
    font: &mut FontImpl,
    c: char,
    measure: F,
    render: R,
    atlas: &mut TextureAtlas,
    result: Result<Option<GlyphInfo>, GlyphError>,
)
    requires
        old(font).well_formed(),
        call_ensures(
            FontImpl::glyph_info::<F, R>,
            (font, c, &measure, &render, atlas),
            result,
        ),
        !old(font).cache().contains_key(c),
        shown_by_glyph(*old(font), c),
        !charmap_maps(font_data(old(font).font()), font_directory(old(font).font()), c as int),
    ensures
        result == Err::<Option<GlyphInfo>, _>(GlyphError::MalformedFont),
        *final(font) == *old(font),
        final(atlas)@ == old(atlas)@,
{
}

/// A line break, and a character that the font leaves out, get no glyph, even if the
/// character map has one, and nothing changes.
pub proof fn law_left_out_character<
    F: Fn(FontScale, Measure) -> Float32,
    R: Fn(&CosmicFont, u16, Float32) -> Option<GlyphImage>,
>(
    font: &mut FontImpl,
    c: char,
    measure: F,
    render: R,
    atlas: &mut TextureAtlas,
    result: Result<Option<GlyphInfo>, GlyphError>,
)
    requires
        old(font).well_formed(),
        call_ensures(
            FontImpl::glyph_info::<F, R>,
            (font, c, &measure, &render, atlas),
            result,
        ),
        c as u32 == 0x0A || leaves_out(*old(font), c),
    ensures
        result == Ok::<_, GlyphError>(None::<GlyphInfo>),
        *final(font) == *old(font),
        final(atlas)@ == old(atlas)@,
{
    if old(font).cache().contains_key(c) {
        law_cache_is_right(*old(font), c);
    }
}

/// A character that is shown as nothing has no width and a rectangle that is zero
/// throughout, even if the character map has a glyph for it. Nothing is drawn.
pub proof fn law_formatting_character<
    F: Fn(FontScale, Measure) -> Float32,
    R: Fn(&CosmicFont, u16, Float32) -> Option<GlyphImage>,
>(
    font: &mut FontImpl,
    c: char,
    measure: F,
    render: R,
    atlas: &mut TextureAtlas,
    result: Result<Option<GlyphInfo>, GlyphError>,
)
    requires
        old(font).well_formed(),
        call_ensures(
            FontImpl::glyph_info::<F, R>,
            (font, c, &measure, &render, atlas),
            result,
        ),
        formats(c),
    ensures
        result matches Ok(Some(info)) && info.advance_width.bits == 0 && all_zero(info.uv_rect)
            && final(font).cache() =~= old(font).cache().insert(c, info),
        final(font).font() == old(font).font(),
        final(font).scale() == old(font).scale(),
        final(atlas)@ == old(atlas)@,
{
    if old(font).cache().contains_key(c) {
        law_cache_is_right(*old(font), c);
    }
}

/// A glyph that the font remembers is given again, and nothing changes.
pub proof fn law_remembered_character<
    F: Fn(FontScale, Measure) -> Float32,
    R: Fn(&CosmicFont, u16, Float32) -> Option<GlyphImage>,
>(
    font: &mut FontImpl,
    c: char,
    measure: F,
    render: R,
    atlas: &mut TextureAtlas,
    result: Result<Option<GlyphInfo>, GlyphError>,
)
    requires
        call_ensures(
            FontImpl::glyph_info::<F, R>,
            (font, c, &measure, &render, atlas),
            result,
        ),
        old(font).cache().contains_key(c),
    ensures
        result == Ok::<_, GlyphError>(Some(old(font).cache()[c])),
        *final(font) == *old(font),
        final(atlas)@ == old(atlas)@,
{
}

/// A tab is four spaces wide, and a thin space is as wide as is worked out from the space
/// of the font; both are painted like the space, whatever glyphs the font has for them. The
/// space itself is the one that the font remembers, or it is shown by its own glyph first.
/// If the space cannot be drawn, there is an error, and nothing changes.
pub proof fn law_tab_and_thin_space<
    F: Fn(FontScale, Measure) -> Float32,
    R: Fn(&CosmicFont, u16, Float32) -> Option<GlyphImage>,
>(
    font: &mut FontImpl,
    c: char,
    measure: F,
    render: R,
    atlas: &mut TextureAtlas,
    result: Result<Option<GlyphInfo>, GlyphError>,
)
    requires
        old(font).well_formed(),
        call_ensures(
            FontImpl::glyph_info::<F, R>,
            (font, c, &measure, &render, atlas),
            result,
        ),
        !old(font).cache().contains_key(c),
        c as u32 == 0x09 || c as u32 == 0x2009,
        mapped(old(font).font(), ' '),
        measurable(old(font).font(), font_charmap(old(font).font())[' ']),
    ensures
        match result {
            Ok(Some(info)) => {
                let space = final(font).cache()[' '];
                &&& final(font).cache() =~= old(font).cache().insert(' ', space).insert(c, info)
                &&& final(font).font() == old(font).font()
                &&& final(font).scale() == old(font).scale()
                &&& info.uv_rect == space.uv_rect
                &&& c as u32 == 0x09 ==> call_ensures(
                    measure,
                    (
                        old(font).scale(),
                        Measure::Tab { spaces: 4, space: space.advance_width },
                    ),
                    info.advance_width,
                )
                &&& c as u32 == 0x2009 ==> call_ensures(
                    measure,
                    (old(font).scale(), Measure::ThinSpace { space: space.advance_width }),
                    info.advance_width,
                )
                &&& if old(font).cache().contains_key(' ') {
                    space == old(font).cache()[' '] && final(atlas)@ == old(atlas)@
                } else {
                    glyph_drawn(
                        measure,
                        render,
                        old(font).font(),
                        old(font).scale(),
                        font_charmap(old(font).font())[' '],
                        old(atlas)@,
                        final(atlas)@,
                        space,
                    )
                }
            },
            Ok(None) => false,
            Err(error) => {
                &&& !old(font).cache().contains_key(' ')
                &&& error != GlyphError::MalformedFont
                &&& glyph_refused(
                    render,
                    old(font).font(),
                    old(font).scale(),
                    font_charmap(old(font).font())[' '],
                    old(atlas)@,
                )
                &&& *final(font) == *old(font)
                &&& final(atlas)@ == old(atlas)@
            },
        },
{
    let glyph_id = font_charmap(old(font).font())[' '];
    assert(old(font).glyph_id(' ') == glyph_id);
    match result {
        Ok(Some(info)) => {
            let space = final(font).cache()[' '];
            if !old(font).cache().contains_key(' ') {
                lemma_allocated_glyph(
                    *old(font),
                    glyph_id,
                    measure,
                    render,
                    *old(atlas),
                    *final(atlas),
                    space,
                );
            }
        },
        Ok(None) => {},
        Err(error) => {
            lemma_refused_glyph(*old(font), glyph_id, render, *old(atlas), error);
        },
    }
}

/// All code points that the character map enumerates are characters.
pub open spec fn only_characters(face: CosmicFont) -> bool {
    forall|k: int|
        0 <= k < font_code_points(face).len() ==> {
            let number = #[trigger] font_code_points(face)[k];
            number < 0xD800 || (0xE000 <= number && number < 0x11_0000)
        }
}

/// The characters of a font are all that its character map enumerates, whatever their
/// number, except for those that it leaves out; and no others. They can be had if the map
/// can be read and enumerates characters only.
pub proof fn law_all_characters_of_font(font: FontImpl, characters: Option<Vec<char>>)
    requires
        font.well_formed(),
        call_ensures(FontImpl::characters, (&font,), characters),
        !charmap_truncated(font_data(font.font()), font_directory(font.font())),
    ensures
        characters is Some <==> charmap_lists(
            font_data(font.font()),
            font_directory(font.font()),
        ) && only_characters(font.font()),
        characters matches Some(chars) ==> {
            &&& forall|k: int|
                0 <= k < font_code_points(font.font()).len() && !leaves_out(
                    font,
                    font_code_points(font.font())[k] as char,
                ) ==> chars@.contains(#[trigger] font_code_points(font.font())[k] as char)
            &&& forall|i: int|
                0 <= i < chars@.len() ==> !leaves_out(font, #[trigger] chars@[i]) && exists|k: int|
                    0 <= k < font_code_points(font.font()).len() && #[trigger] font_code_points(
                        font.font(),
                    )[k] == chars@[i] as u32
            &&& chars@.len() <= font_code_points(font.font()).len()
            &&& !font.builtin() ==> {
                &&& chars@.len() == font_code_points(font.font()).len()
                &&& forall|i: int|
                    0 <= i < chars@.len() ==> #[trigger] chars@[i] as u32 == font_code_points(
                        font.font(),
                    )[i]
            }
        },
{
    let face = font.font();
    let points = font_code_points(face);
    let all = points.map_values(|cp: u32| cp as char);
    let keep = |c: char| !font.ignores(c);
    assert forall|c: char| #[trigger] font.ignores(c) == leaves_out(font, c) by {
        lemma_leaves_out(font, c);
    }
    if characters is Some {
        assert(font.lists_characters());
        assert(only_characters(face)) by {
            assert forall|k: int| 0 <= k < points.len() implies {
                let number = #[trigger] points[k];
                number < 0xD800 || (0xE000 <= number && number < 0x11_0000)
            } by {
                assert(crate::character::is_scalar(
                    crate::face::listed_code_points(face)[k],
                ));
            }
        }
    }
    if let Some(chars) = characters {
        assert(chars@ == all.filter(keep));
        lemma_filter(all, keep);
        assert forall|k: int| 0 <= k < points.len() && !leaves_out(
            font,
            points[k] as char,
        ) implies chars@.contains(#[trigger] points[k] as char) by {
            assert(all[k] == points[k] as char);
            assert(keep(all[k]));
        }
        assert forall|i: int| 0 <= i < chars@.len() implies !leaves_out(font, #[trigger] chars@[i])
            && exists|k: int|
            0 <= k < points.len() && #[trigger] points[k] == chars@[i] as u32 by {
            assert(all.filter(keep).contains(chars@[i]));
            assert(all.contains(chars@[i]));
            let k = choose|k: int| 0 <= k < all.len() && all[k] == chars@[i];
            assert(points[k] as char == chars@[i]);
            assert(points[k] == chars@[i] as u32);
        }
        if !font.builtin() {
            assert(chars@ == all);
            assert forall|i: int| 0 <= i < chars@.len() implies #[trigger] chars@[i] as u32
                == points[i] by {
                assert(all[i] == points[i] as char);
                assert(crate::character::is_scalar(points[i]));
            }
        }
    }
}

/// What a font leaves out is what it ignores.
pub proof fn lemma_leaves_out(font: FontImpl, c: char)
    ensures
        font.ignores(c) == leaves_out(font, c),
{
}

/// What is filtered out of a sequence does not pass the filter, and what is kept does.
pub proof fn lemma_filter(s: Seq<char>, keep: spec_fn(char) -> bool)
    ensures
        forall|i: int|
            0 <= i < s.len() && keep(#[trigger] s[i]) ==> s.filter(keep).contains(s[i]),
        forall|c: char| #[trigger] s.filter(keep).contains(c) ==> s.contains(c) && keep(c),
        s.filter(keep).len() <= s.len(),
        (forall|i: int| 0 <= i < s.len() ==> keep(#[trigger] s[i])) ==> s.filter(keep) == s,
    decreases s.len(),
{
    reveal(Seq::filter);
    if s.len() > 0 {
        let rest = s.drop_last();
        lemma_filter(rest, keep);
        let (kept, all) = (rest.filter(keep), s.filter(keep));
        assert(s.last() == s[s.len() - 1]);
        assert forall|c: char| #[trigger] kept.contains(c) implies all.contains(c) by {
            let j = choose|j: int| 0 <= j < kept.len() && kept[j] == c;
            assert(all[j] == c);
        }
        assert forall|i: int| 0 <= i < s.len() && keep(#[trigger] s[i]) implies all.contains(
            s[i],
        ) by {
            if i < s.len() - 1 {
                assert(rest[i] == s[i]);
                assert(kept.contains(s[i]));
            } else {
                assert(all[kept.len() as int] == s[i]);
            }
        }
        assert forall|c: char| #[trigger] all.contains(c) implies s.contains(c) && keep(c) by {
            let j = choose|j: int| 0 <= j < all.len() && all[j] == c;
            if j < kept.len() {
                assert(kept[j] == c);
                assert(kept.contains(c));
                let i = choose|i: int| 0 <= i < rest.len() && rest[i] == c;
                assert(s[i] == c);
            }
        }
        if forall|i: int| 0 <= i < s.len() ==> keep(#[trigger] s[i]) {
            assert forall|i: int| 0 <= i < rest.len() implies keep(#[trigger] rest[i]) by {
                assert(keep(s[i]));
            }
            assert(all =~= s);
        }
    }
}

} // verus!
