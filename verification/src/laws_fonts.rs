//! What a list of fonts gives for a character, said of the fonts in their order, of what
//! their character maps hold, and of the glyphs themselves.

use crate::atlas::TextureAtlas;
use crate::face::{font_advances, font_charmap};
use crate::fallback::{first_at, from_first, law_faces_extend, unsupported, FontIndex};
use crate::font::{law_font_lookup, law_found, Font};
use crate::font_impl::FontImpl;
use crate::glyph::{GlyphError, GlyphImage, GlyphInfo, ImageView, UvRect};
use crate::laws_drawing::{all_zero, cannot_be_drawn, drawn, lemma_drawn, picture};
use crate::laws_lookup::{mapped, measurable, passes, shown_by_glyph};
use crate::measure::{FontScale, Measure};
use crate::number::Float32;
use crate::store::{law_store_lookup, FontStore};
use cosmic_text::Font as CosmicFont;
use vstd::prelude::*;

verus! {

/// The font at a position of the list.
pub open spec fn face_at<
    F: Fn(FontScale, Measure) -> Float32,
    R: Fn(&CosmicFont, u16, Float32) -> Option<GlyphImage>,
>(
    font: Font,
    store: FontStore<F, R>,
    i: int,
) -> FontImpl {
    store.fonts()[font.fonts()[i] as int]
}

/// The font at this position is the first that has an answer for the character: all before
/// it pass.
pub open spec fn answers_first<
    F: Fn(FontScale, Measure) -> Float32,
    R: Fn(&CosmicFont, u16, Float32) -> Option<GlyphImage>,
>(
    font: Font,
    store: FontStore<F, R>,
    c: char,
    i: int,
) -> bool {
    &&& 0 <= i < font.fonts().len()
    &&& !passes(face_at(font, store, i), c)
    &&& forall|j: int| 0 <= j < i ==> passes(#[trigger] face_at(font, store, j), c)
}

/// No font of the list has an answer for the character.
pub open spec fn all_pass<
    F: Fn(FontScale, Measure) -> Float32,
    R: Fn(&CosmicFont, u16, Float32) -> Option<GlyphImage>,
>(
    font: Font,
    store: FontStore<F, R>,
    c: char,
) -> bool {
    forall|j: int| 0 <= j < font.fonts().len() ==> passes(#[trigger] face_at(font, store, j), c)
}

/// The font at this position is the first that supports the character, and no other is.
proof fn lemma_first<
    F: Fn(FontScale, Measure) -> Float32,
    R: Fn(&CosmicFont, u16, Float32) -> Option<GlyphImage>,
>(
    font: Font,
    store: FontStore<F, R>,
    c: char,
    i: int,
)
    requires
        answers_first(font, store, c, i),
    ensures
        first_at(font.faces(store), c, i),
        forall|k: int| #[trigger] first_at(font.faces(store), c, k) ==> k == i,
        !unsupported(font.faces(store), c),
{
    let faces = font.faces(store);
    assert(faces[i] == face_at(font, store, i));
    assert(faces[i].supports(c));
    assert forall|j: int| 0 <= j < i implies !(#[trigger] faces[j]).supports(c) by {
        assert(faces[j] == face_at(font, store, j));
        assert(passes(face_at(font, store, j), c));
    }
    assert forall|k: int| #[trigger] first_at(faces, c, k) implies k == i by {
        if k < i {
            assert(!faces[k].supports(c));
        } else if i < k {
            assert(!faces[i].supports(c));
        }
    }
}

/// If no font has an answer, none supports the character.
proof fn lemma_none<
    F: Fn(FontScale, Measure) -> Float32,
    R: Fn(&CosmicFont, u16, Float32) -> Option<GlyphImage>,
>(
    font: Font,
    store: FontStore<F, R>,
    c: char,
)
    ensures
        all_pass(font, store, c) <==> unsupported(font.faces(store), c),
{
    let faces = font.faces(store);
    if all_pass(font, store, c) {
        assert forall|j: int| 0 <= j < faces.len() implies !(#[trigger] faces[j]).supports(c) by {
            assert(faces[j] == face_at(font, store, j));
            assert(passes(face_at(font, store, j), c));
        }
    }
    if unsupported(faces, c) {
        assert forall|j: int| 0 <= j < font.fonts().len() implies passes(
            #[trigger] face_at(font, store, j),
            c,
        ) by {
            assert(!faces[j].supports(c));
        }
    }
}

/// The rasterizer of the store was asked for the glyph of the face at the font size, and
/// what it gave has been drawn; the width is that of the same glyph.
pub open spec fn drawn_in_store<
    F: Fn(FontScale, Measure) -> Float32,
    R: Fn(&CosmicFont, u16, Float32) -> Option<GlyphImage>,
>(
    before: FontStore<F, R>,
    after: FontStore<F, R>,
    face: CosmicFont,
    scale: FontScale,
    glyph_id: u16,
    info: GlyphInfo,
) -> bool {
    exists|reply: Option<ImageView>|
        {
            &&& #[trigger] (before.canvas().renders)(face, glyph_id, scale.font_size, reply)
            &&& drawn(
                before.measure(),
                scale,
                font_advances(face)[glyph_id],
                reply,
                before.canvas().atlas,
                after.canvas().atlas,
                info,
            )
        }
}

/// The rasterizer of the store was asked for the glyph of the face at the font size, and
/// what it gave cannot be drawn.
pub open spec fn refused_in_store<
    F: Fn(FontScale, Measure) -> Float32,
    R: Fn(&CosmicFont, u16, Float32) -> Option<GlyphImage>,
>(
    store: FontStore<F, R>,
    face: CosmicFont,
    scale: FontScale,
    glyph_id: u16,
) -> bool {
    exists|reply: Option<ImageView>|
        {
            &&& #[trigger] (store.canvas().renders)(face, glyph_id, scale.font_size, reply)
            &&& cannot_be_drawn(reply, store.canvas().atlas)
        }
}

/// All glyphs are where they were: the same fonts with the same glyphs, the same texture,
/// the same functions.
pub open spec fn store_stays<
    F: Fn(FontScale, Measure) -> Float32,
    R: Fn(&CosmicFont, u16, Float32) -> Option<GlyphImage>,
>(before: FontStore<F, R>, after: FontStore<F, R>) -> bool {
    &&& after.fonts() == before.fonts()
    &&& after.canvas() == before.canvas()
    &&& after.measure() == before.measure()
}

/// A new store has no fonts, and uses the texture and the functions that it was made with.
pub proof fn law_new_store<
    F: Fn(FontScale, Measure) -> Float32,
    R: Fn(&CosmicFont, u16, Float32) -> Option<GlyphImage>,
>(
    atlas: TextureAtlas,
    measure: F,
    render: R,
    store: FontStore<F, R>,
)
    requires
        call_ensures(FontStore::<F, R>::new, (atlas, measure, render), store),
    ensures
        store.fonts().len() == 0,
        store.measure() == measure,
        store.canvas().atlas == atlas@,
        forall|face: CosmicFont, glyph_id: u16, size: Float32, image: GlyphImage|
            #[trigger] call_ensures(render, (&face, glyph_id, size), Some(image)) ==> (
            store.canvas().renders)(face, glyph_id, size, Some(picture(image))),
        forall|face: CosmicFont, glyph_id: u16, size: Float32|
            #[trigger] call_ensures(render, (&face, glyph_id, size), None::<GlyphImage>) ==> (
            store.canvas().renders)(face, glyph_id, size, None),
        forall|face: CosmicFont, glyph_id: u16, size: Float32, seen: ImageView|
            #[trigger] (store.canvas().renders)(face, glyph_id, size, Some(seen)) ==> exists|
                image: GlyphImage,
            |
                {
                    &&& #[trigger] call_ensures(render, (&face, glyph_id, size), Some(image))
                    &&& picture(image) == seen
                },
{
    assert forall|face: CosmicFont, glyph_id: u16, size: Float32, image: GlyphImage|
        #[trigger] call_ensures(render, (&face, glyph_id, size), Some(image)) implies (
    store.canvas().renders)(face, glyph_id, size, Some(picture(image))) by {
        assert(crate::glyph::reply_view(Some(image)) == Some(picture(image)));
        assert(crate::render::rendered(render, face, glyph_id, size, Some(picture(image))));
    }
    assert forall|face: CosmicFont, glyph_id: u16, size: Float32|
        #[trigger] call_ensures(render, (&face, glyph_id, size), None::<GlyphImage>) implies (
    store.canvas().renders)(face, glyph_id, size, None) by {
        assert(crate::glyph::reply_view(None) is None);
        assert(crate::render::rendered(render, face, glyph_id, size, None));
    }
    assert forall|face: CosmicFont, glyph_id: u16, size: Float32, seen: ImageView|
        #[trigger] (store.canvas().renders)(face, glyph_id, size, Some(seen)) implies exists|
            image: GlyphImage,
        |
        {
            &&& #[trigger] call_ensures(render, (&face, glyph_id, size), Some(image))
            &&& picture(image) == seen
        } by {
        assert(crate::render::rendered(render, face, glyph_id, size, Some(seen)));
        let reply = choose|reply: Option<GlyphImage>|
            {
                &&& #[trigger] call_ensures(render, (&face, glyph_id, size), reply)
                &&& crate::glyph::reply_view(reply) == Some(seen)
            };
        assert(call_ensures(render, (&face, glyph_id, size), Some(reply->0)));
    }
}

/// A font that is added gets the next number and is found under it; all other fonts keep
/// their numbers, and nothing is drawn.
pub proof fn law_added_font<
    F: Fn(FontScale, Measure) -> Float32,
    R: Fn(&CosmicFont, u16, Float32) -> Option<GlyphImage>,
>(
    store: &mut FontStore<F, R>,
    font: FontImpl,
    id: usize,
    other: int,
)
    requires
        call_ensures(FontStore::<F, R>::insert, (store, font), id),
        0 <= other < old(store).fonts().len(),
    ensures
        id == old(store).fonts().len(),
        final(store).fonts().len() == id + 1,
        final(store).fonts()[id as int] == font,
        final(store).fonts()[other] == old(store).fonts()[other],
        final(store).canvas() == old(store).canvas(),
        final(store).measure() == old(store).measure(),
{
}

/// What is read of a store is what is there.
pub proof fn law_store_is_read<
    F: Fn(FontScale, Measure) -> Float32,
    R: Fn(&CosmicFont, u16, Float32) -> Option<GlyphImage>,
>(
    store: FontStore<F, R>,
    len: usize,
    id: usize,
    font: &FontImpl,
    atlas: &TextureAtlas,
)
    requires
        call_ensures(FontStore::<F, R>::len, (&store,), len),
        call_ensures(FontStore::<F, R>::font, (&store, id), font),
        call_ensures(FontStore::<F, R>::texture, (&store,), atlas),
    ensures
        len == store.fonts().len(),
        *font == store.fonts()[id as int],
        atlas@ == store.canvas().atlas,
{
}

/// Looking up a character in one font of a store leaves all others alone.
pub proof fn law_other_fonts_stay<
    F: Fn(FontScale, Measure) -> Float32,
    R: Fn(&CosmicFont, u16, Float32) -> Option<GlyphImage>,
>(
    store: &mut FontStore<F, R>,
    id: usize,
    c: char,
    result: Result<Option<GlyphInfo>, GlyphError>,
    other: int,
)
    requires
        old(store).well_formed(),
        call_ensures(FontStore::<F, R>::glyph_info, (store, id, c), result),
        0 <= other < old(store).fonts().len(),
        other != id,
    ensures
        final(store).fonts().len() == old(store).fonts().len(),
        final(store).fonts()[other] == old(store).fonts()[other],
        final(store).measure() == old(store).measure(),
        result is Err ==> store_stays(*old(store), *final(store)),
        result == Ok::<_, GlyphError>(None::<GlyphInfo>) <==> passes(
            old(store).fonts()[id as int],
            c,
        ),
        passes(old(store).fonts()[id as int], c) ==> store_stays(*old(store), *final(store)),
{
    law_store_lookup(*old(store), id, c, result, *final(store));
}

/// What a look-up in one font of a store draws.
proof fn lemma_drawn_in_store<
    F: Fn(FontScale, Measure) -> Float32,
    R: Fn(&CosmicFont, u16, Float32) -> Option<GlyphImage>,
>(
    before: FontStore<F, R>,
    id: usize,
    c: char,
    result: Result<Option<GlyphInfo>, GlyphError>,
    after: FontStore<F, R>,
)
    requires
        before.well_formed(),
        before.looked_up(id, c, result, after),
        !before.fonts()[id as int].cache().contains_key(c),
        shown_by_glyph(before.fonts()[id as int], c),
        mapped(before.fonts()[id as int].font(), c),
    ensures
        ({
            let font = before.fonts()[id as int];
            let glyph_id = font_charmap(font.font())[c];
            if measurable(font.font(), glyph_id) {
                match result {
                    Ok(Some(info)) => drawn_in_store(
                        before,
                        after,
                        font.font(),
                        font.scale(),
                        glyph_id,
                        info,
                    ),
                    Ok(None) => false,
                    Err(_) => refused_in_store(before, font.font(), font.scale(), glyph_id),
                }
            } else {
                result == Err::<Option<GlyphInfo>, _>(GlyphError::MalformedFont)
            }
        }),
{
    let font = before.fonts()[id as int];
    let (face, scale) = (font.font(), font.scale());
    let glyph_id = font_charmap(face)[c];
    let unscaled = font_advances(face)[glyph_id];
    let (was, is) = (before.canvas(), after.canvas());
    assert(font.glyph_id(c) == glyph_id);
    if measurable(face, glyph_id) {
        match result {
            Ok(Some(info)) => {
                assert(font.allocated(glyph_id, before.measure(), was, is, info));
                let reply = choose|reply: Option<ImageView>|
                    {
                        &&& #[trigger] (was.renders)(face, glyph_id, scale.font_size, reply)
                        &&& crate::placement::obstacle(reply, was.atlas) is None
                        &&& crate::placement::glyph_placed(
                            before.measure(),
                            scale,
                            Float32 { bits: unscaled },
                            reply,
                            was.atlas,
                            is.atlas,
                            info,
                        )
                    };
                lemma_drawn(before.measure(), scale, unscaled, reply, was.atlas, is.atlas, info);
                assert((was.renders)(face, glyph_id, scale.font_size, reply));
            },
            Ok(None) => {},
            Err(error) => {
                assert(font.not_allocated(glyph_id, was, error));
                let reply = choose|reply: Option<ImageView>|
                    {
                        &&& #[trigger] (was.renders)(face, glyph_id, scale.font_size, reply)
                        &&& crate::placement::obstacle(reply, was.atlas) == Some(error)
                    };
                assert((was.renders)(face, glyph_id, scale.font_size, reply));
                assert(cannot_be_drawn(reply, was.atlas));
            },
        }
    }
}

/// A character is shown by the first font of the list that has an answer for it, wherever
/// in the list that is, and by no other font. The glyph is the one that this font then
/// remembers; if it did not before, and shows the character by a glyph, it is the glyph
/// that its character map has for this very character.
pub proof fn law_first_font_shows<
    F: Fn(FontScale, Measure) -> Float32,
    R: Fn(&CosmicFont, u16, Float32) -> Option<GlyphImage>,
>(
    font: &mut Font,
    store: &mut FontStore<F, R>,
    c: char,
    result: Result<(FontIndex, GlyphInfo), GlyphError>,
    i: int,
)
    requires
        old(store).well_formed(),
        old(font).well_formed(*old(store)),
        call_ensures(Font::glyph_info::<F, R>, (font, store, c), result),
        answers_first(*old(font), *old(store), c, i),
    ensures
        match result {
            Ok(entry) => {
                &&& entry.0 == i
                &&& face_at(*final(font), *final(store), i).cache().contains_key(c)
                &&& face_at(*final(font), *final(store), i).cache()[c] == entry.1
                &&& final(font).cache() =~= old(font).cache().insert(c, entry)
                &&& !old(font).cache().contains_key(c) && !face_at(
                    *old(font),
                    *old(store),
                    i,
                ).cache().contains_key(c) && shown_by_glyph(face_at(*old(font), *old(store), i), c)
                    && mapped(face_at(*old(font), *old(store), i).font(), c) ==> drawn_in_store(
                    *old(store),
                    *final(store),
                    face_at(*old(font), *old(store), i).font(),
                    face_at(*old(font), *old(store), i).scale(),
                    font_charmap(face_at(*old(font), *old(store), i).font())[c],
                    entry.1,
                )
            },
            Err(error) => {
                &&& !old(font).cache().contains_key(c)
                &&& *final(font) == *old(font)
                &&& store_stays(*old(store), *final(store))
                &&& shown_by_glyph(face_at(*old(font), *old(store), i), c) && mapped(
                    face_at(*old(font), *old(store), i).font(),
                    c,
                ) && measurable(
                    face_at(*old(font), *old(store), i).font(),
                    font_charmap(face_at(*old(font), *old(store), i).font())[c],
                ) ==> refused_in_store(
                    *old(store),
                    face_at(*old(font), *old(store), i).font(),
                    face_at(*old(font), *old(store), i).scale(),
                    font_charmap(face_at(*old(font), *old(store), i).font())[c],
                )
            },
        },
        final(font).fonts() == old(font).fonts(),
        final(font).replacement() == old(font).replacement(),
        old(font).cache().contains_key(c) ==> {
            &&& result == Ok::<_, GlyphError>(old(font).cache()[c])
            &&& *final(font) == *old(font)
            &&& store_stays(*old(store), *final(store))
        },
{
    let faces = old(font).faces(*old(store));
    lemma_first(*old(font), *old(store), c, i);
    law_font_lookup(*old(font), *old(store), c, result, *final(font), *final(store));
    law_faces_extend(faces, final(font).faces(*final(store)));
    let after = final(font).faces(*final(store));
    let id = old(font).fonts()[i];
    assert(id < old(store).fonts().len());
    assert(after[i] == face_at(*final(font), *final(store), i));
    match result {
        Ok(entry) => {
            assert(first_at(after, c, i));
            assert(!unsupported(after, c));
            assert(from_first(after, c, entry));
            assert(first_at(faces, c, entry.0 as int));
            if !old(font).cache().contains_key(c) && !faces[i].cache().contains_key(c)
                && shown_by_glyph(faces[i], c) && mapped(faces[i].font(), c) {
                lemma_drawn_in_store(*old(store), id, c, Ok(Some(entry.1)), *final(store));
            }
        },
        Err(error) => {
            let k = choose|k: int|
                {
                    &&& #[trigger] first_at(faces, c, k)
                    &&& old(store).looked_up(old(font).fonts()[k], c, Err(error), *final(store))
                };
            assert(k == i);
            if shown_by_glyph(faces[i], c) && mapped(faces[i].font(), c) {
                assert(!faces[i].cache().contains_key(c));
                lemma_drawn_in_store(*old(store), id, c, Err(error), *final(store));
            }
        },
    }
}

/// A character that all fonts of the list pass is shown as the replacement; nothing is
/// drawn, and no font of the store changes.
pub proof fn law_no_font_shows<
    F: Fn(FontScale, Measure) -> Float32,
    R: Fn(&CosmicFont, u16, Float32) -> Option<GlyphImage>,
>(
    font: &mut Font,
    store: &mut FontStore<F, R>,
    c: char,
    result: Result<(FontIndex, GlyphInfo), GlyphError>,
)
    requires
        old(store).well_formed(),
        old(font).well_formed(*old(store)),
        call_ensures(Font::glyph_info::<F, R>, (font, store, c), result),
        all_pass(*old(font), *old(store), c),
    ensures
        result == Ok::<_, GlyphError>(old(font).replacement()),
        final(font).cache() =~= old(font).cache().insert(c, old(font).replacement()),
        final(font).fonts() == old(font).fonts(),
        final(font).replacement() == old(font).replacement(),
        store_stays(*old(store), *final(store)),
{
    lemma_none(*old(font), *old(store), c);
}

/// Without its own memory, a list of fonts gives the same: the first font that has an
/// answer shows the character, and there is none if all pass.
pub proof fn law_search_in_fonts<
    F: Fn(FontScale, Measure) -> Float32,
    R: Fn(&CosmicFont, u16, Float32) -> Option<GlyphImage>,
>(
    font: &mut Font,
    store: &mut FontStore<F, R>,
    c: char,
    result: Result<Option<(FontIndex, GlyphInfo)>, GlyphError>,
    i: int,
)
    requires
        old(store).well_formed(),
        crate::fallback::all_in_use(old(font).fonts(), old(store).fonts()),
        call_ensures(Font::glyph_info_no_cache_or_fallback::<F, R>, (font, store, c), result),
    ensures
        result == Ok::<_, GlyphError>(None::<(FontIndex, GlyphInfo)>) <==> all_pass(
            *old(font),
            *old(store),
            c,
        ),
        result matches Ok(Some(entry)) ==> {
            &&& answers_first(*old(font), *old(store), c, i) ==> entry.0 == i
            &&& face_at(*final(font), *final(store), entry.0 as int).cache().contains_key(c)
            &&& face_at(*final(font), *final(store), entry.0 as int).cache()[c] == entry.1
            &&& final(font).cache() == old(font).cache().insert(c, entry)
            &&& final(font).fonts() == old(font).fonts()
        },
        !(result matches Ok(Some(_))) ==> {
            &&& *final(font) == *old(font)
            &&& store_stays(*old(store), *final(store))
        },
{
    let faces = old(font).faces(*old(store));
    lemma_none(*old(font), *old(store), c);
    law_found(*old(font), *old(store), c, result, *final(font), *final(store));
    if let Ok(Some(entry)) = result {
        assert(faces[entry.0 as int].supports(c));
        if answers_first(*old(font), *old(store), c, i) {
            lemma_first(*old(font), *old(store), c, i);
        }
    }
    if let Err(error) = result {
        let k = choose|k: int|
            {
                &&& #[trigger] first_at(faces, c, k)
                &&& old(store).looked_up(old(font).fonts()[k], c, Err(error), *final(store))
            };
        assert(faces[k].supports(c));
    }
}

/// The two numbers are not equal: their bits differ and they are not both zero, or one is no
/// number.
pub open spec fn differ(x: Float32, y: Float32) -> bool {
    ||| x.bits % 0x8000_0000 > 0x7F80_0000
    ||| y.bits % 0x8000_0000 > 0x7F80_0000
    ||| x.bits != y.bits && (x.bits % 0x8000_0000 != 0 || y.bits % 0x8000_0000 != 0)
}

/// The two glyphs are not equal: a number of one differs from that of the other.
pub open spec fn glyphs_differ(one: GlyphInfo, other: GlyphInfo) -> bool {
    let (a, b) = (one.uv_rect, other.uv_rect);
    ||| differ(one.advance_width, other.advance_width)
    ||| differ(a.offset.x, b.offset.x) || differ(a.offset.y, b.offset.y)
    ||| differ(a.size.x, b.size.x) || differ(a.size.y, b.size.y)
    ||| a.min@[0] != b.min@[0] || a.min@[1] != b.min@[1]
    ||| a.max@[0] != b.max@[0] || a.max@[1] != b.max@[1]
}

/// Glyphs are the same if and only if none of their numbers differ.
pub proof fn lemma_glyphs_differ(one: GlyphInfo, other: GlyphInfo)
    ensures
        one.same_glyph(other) <==> !glyphs_differ(one, other),
{
    let (a, b) = (one.uv_rect, other.uv_rect);
    assert(a.min@ =~= b.min@ <==> a.min@[0] == b.min@[0] && a.min@[1] == b.min@[1]);
    assert(a.max@ =~= b.max@ <==> a.max@[0] == b.max@[0] && a.max@[1] == b.max@[1]);
}

/// A character is said to have a glyph if and only if it is the one that the replacement is
/// the glyph of, or it is shown by another font than the replacement, whichever that is, or
/// its glyph differs from the replacement in any number.
pub proof fn law_has_glyph<
    F: Fn(FontScale, Measure) -> Float32,
    R: Fn(&CosmicFont, u16, Float32) -> Option<GlyphImage>,
>(
    font: &mut Font,
    store: &mut FontStore<F, R>,
    c: char,
    has_glyph: bool,
)
    requires
        old(store).well_formed(),
        old(font).well_formed(*old(store)),
        call_ensures(Font::has_glyph::<F, R>, (font, store, c), Ok::<_, GlyphError>(has_glyph)),
    ensures
        final(font).cache().contains_key(c),
        final(font).cache().dom() =~= old(font).cache().dom().insert(c),
        has_glyph <==> {
            let (i, info) = final(font).cache()[c];
            ||| old(font).replaces_with() == Some(c)
            ||| i != old(font).replacement().0
            ||| glyphs_differ(info, old(font).replacement().1)
        },
{
    let entry = final(font).cache()[c];
    law_font_lookup(*old(font), *old(store), c, Ok(entry), *final(font), *final(store));
    lemma_glyphs_differ(entry.1, old(font).replacement().1);
}

/// A character that is shown by a font at another place of the list than the replacement
/// has a glyph. One that all fonts pass has none, unless the replacement has a number that
/// is none.
pub proof fn law_has_glyph_by_fonts<
    F: Fn(FontScale, Measure) -> Float32,
    R: Fn(&CosmicFont, u16, Float32) -> Option<GlyphImage>,
>(
    font: &mut Font,
    store: &mut FontStore<F, R>,
    c: char,
    has_glyph: bool,
    i: int,
)
    requires
        old(store).well_formed(),
        old(font).well_formed(*old(store)),
        call_ensures(Font::has_glyph::<F, R>, (font, store, c), Ok::<_, GlyphError>(has_glyph)),
    ensures
        answers_first(*old(font), *old(store), c, i) && i != old(font).replacement().0
            ==> has_glyph,
        answers_first(*old(font), *old(store), c, i) ==> final(font).cache()[c].0 == i,
        all_pass(*old(font), *old(store), c) ==> has_glyph == glyphs_differ(
            old(font).replacement().1,
            old(font).replacement().1,
        ),
        c as u32 == 0x25FB && !all_pass(*old(font), *old(store), c) ==> has_glyph,
        c as u32 == 0x3F && all_pass(*old(font), *old(store), '\u{25FB}') && !all_pass(
            *old(font),
            *old(store),
            c,
        ) ==> has_glyph,
{
    let faces = old(font).faces(*old(store));
    let entry = final(font).cache()[c];
    law_font_lookup(*old(font), *old(store), c, Ok(entry), *final(font), *final(store));
    law_faces_extend(faces, final(font).faces(*final(store)));
    lemma_glyphs_differ(entry.1, old(font).replacement().1);
    lemma_none(*old(font), *old(store), c);
    lemma_none(*old(font), *old(store), '\u{25FB}');
    if answers_first(*old(font), *old(store), c, i) {
        lemma_first(*old(font), *old(store), c, i);
        let after = final(font).faces(*final(store));
        assert(first_at(after, c, i));
        assert(!unsupported(after, c));
        assert(from_first(after, c, entry));
        assert(first_at(faces, c, entry.0 as int));
    }
}

/// The character that is shown in place of others is the white medium square, if a font of
/// the list has an answer for it; else the question mark, if a font has one for that; else
/// there is none.
pub proof fn law_replacement_character<
    F: Fn(FontScale, Measure) -> Float32,
    R: Fn(&CosmicFont, u16, Float32) -> Option<GlyphImage>,
>(
    font: Font,
    store: FontStore<F, R>,
    replacement: Option<char>,
)
    requires
        font.well_formed(store),
        call_ensures(Font::replacement_character, (&font,), replacement),
    ensures
        replacement == font.replaces_with(),
        !all_pass(font, store, '\u{25FB}') ==> replacement == Some('\u{25FB}'),
        all_pass(font, store, '\u{25FB}') && !all_pass(font, store, '?') ==> replacement == Some(
            '?',
        ),
        all_pass(font, store, '\u{25FB}') && all_pass(font, store, '?') ==> replacement is None
            && font.replacement().0 == 0 && font.replacement().1.advance_width.bits == 0
            && all_zero(font.replacement().1.uv_rect),
{
    lemma_none(font, store, '\u{25FB}');
    lemma_none(font, store, '?');
}

/// A new list of fonts is as high and as dense as its first font, and remembers nothing but
/// its replacement, which is the glyph that the first font with an answer has for the white
/// medium square, or else for the question mark. If neither can be shown, the replacement
/// has no width and no pixels, and there is no error.
pub proof fn law_new_list<
    F: Fn(FontScale, Measure) -> Float32,
    R: Fn(&CosmicFont, u16, Float32) -> Option<GlyphImage>,
>(
    store: &mut FontStore<F, R>,
    fonts: Vec<usize>,
    result: Result<Font, GlyphError>,
    i: int,
)
    requires
        old(store).well_formed(),
        crate::fallback::all_in_use(fonts@, old(store).fonts()),
        call_ensures(Font::new::<F, R>, (store, fonts), result),
    ensures
        result matches Ok(font) ==> {
            &&& font.well_formed(*final(store))
            &&& font.fonts() == fonts@
            &&& fonts@.len() > 0 ==> {
                let first = old(store).fonts()[fonts@[0] as int].scale();
                &&& font.scale() == first.pixels_per_point
                &&& font.height() == first.height_in_points
            }
            &&& fonts@.len() == 0 ==> font.scale().bits == 0x3F80_0000 && font.height().bits == 0
            &&& answers_first(font, *old(store), '\u{25FB}', i) ==> {
                &&& font.replacement().0 == i
                &&& face_at(font, *final(store), i).cache().contains_key('\u{25FB}')
                &&& face_at(font, *final(store), i).cache()['\u{25FB}'] == font.replacement().1
                &&& font.cache() =~= Map::<char, (FontIndex, GlyphInfo)>::empty().insert(
                    '\u{25FB}',
                    font.replacement(),
                )
            }
            &&& all_pass(font, *old(store), '\u{25FB}') && answers_first(
                font,
                *old(store),
                '?',
                i,
            ) ==> {
                &&& font.replacement().0 == i
                &&& face_at(font, *final(store), i).cache().contains_key('?')
                &&& face_at(font, *final(store), i).cache()['?'] == font.replacement().1
                &&& font.cache() =~= Map::<char, (FontIndex, GlyphInfo)>::empty().insert(
                    '?',
                    font.replacement(),
                )
            }
            &&& all_pass(font, *old(store), '\u{25FB}') && all_pass(font, *old(store), '?') ==> {
                &&& font.replacement().0 == 0
                &&& font.replacement().1.advance_width.bits == 0
                &&& all_zero(font.replacement().1.uv_rect)
                &&& forall|c: char| !#[trigger] font.cache().contains_key(c)
                &&& store_stays(*old(store), *final(store))
            }
        },
        result is Err ==> {
            &&& store_stays(*old(store), *final(store))
            &&& exists|k: int|
                #![trigger fonts@[k]]
                0 <= k < fonts@.len() && (!passes(
                    old(store).fonts()[fonts@[k] as int],
                    '\u{25FB}',
                ) || !passes(old(store).fonts()[fonts@[k] as int], '?'))
        },
{
    let faces = crate::fallback::pick(fonts@, old(store).fonts());
    match result {
        Ok(font) => {
            assert(font.faces(*old(store)) == faces);
            lemma_none(font, *old(store), '\u{25FB}');
            lemma_none(font, *old(store), '?');
            if let Some(c) = crate::fallback::replacement_char(faces) {
                let (k, info) = font.replacement();
                law_store_lookup(*old(store), fonts@[k as int], c, Ok(Some(info)), *final(store));
                if answers_first(font, *old(store), c, i) {
                    lemma_first(font, *old(store), c, i);
                }
            }
            if answers_first(font, *old(store), '\u{25FB}', i) {
                lemma_first(font, *old(store), '\u{25FB}', i);
            }
            if answers_first(font, *old(store), '?', i) {
                lemma_first(font, *old(store), '?', i);
            }
        },
        Err(error) => {
            let c = crate::fallback::replacement_char(faces)->0;
            let k = choose|k: int|
                {
                    &&& #[trigger] first_at(faces, c, k)
                    &&& old(store).looked_up(fonts@[k], c, Err(error), *final(store))
                };
            assert(faces[k].supports(c));
            assert(fonts@[k] == fonts@[k]);
        },
    }
}

/// What is read of a list of fonts is what is there: its measures, and the rectangles of the
/// glyphs that it remembers. The rectangle of any other character is zero throughout.
pub proof fn law_list_is_read(
    font: Font,
    height: Float32,
    pixels_per_point: Float32,
    c: char,
    rect: UvRect,
)
    requires
        call_ensures(Font::row_height, (&font,), height),
        call_ensures(Font::pixels_per_point, (&font,), pixels_per_point),
        call_ensures(Font::uv_rect, (&font, c), rect),
    ensures
        height == font.height(),
        pixels_per_point == font.scale(),
        font.cache().contains_key(c) ==> rect == font.cache()[c].1.uv_rect,
        !font.cache().contains_key(c) ==> all_zero(rect),
{
}

/// A list of fonts is as high as the first of them, and has as many pixels in a point.
pub proof fn law_first_font_measures<
    F: Fn(FontScale, Measure) -> Float32,
    R: Fn(&CosmicFont, u16, Float32) -> Option<GlyphImage>,
>(
    store: &mut FontStore<F, R>,
    fonts: Vec<usize>,
    font: Font,
    height: Float32,
    pixels_per_point: Float32,
    first: FontImpl,
    first_height: Float32,
    first_pixels_per_point: Float32,
)
    requires
        call_ensures(Font::new::<F, R>, (store, fonts), Ok::<_, GlyphError>(font)),
        fonts@.len() > 0,
        first == old(store).fonts()[fonts@[0] as int],
        call_ensures(Font::row_height, (&font,), height),
        call_ensures(Font::pixels_per_point, (&font,), pixels_per_point),
        call_ensures(FontImpl::row_height, (&first,), first_height),
        call_ensures(FontImpl::pixels_per_point, (&first,), first_pixels_per_point),
    ensures
        height == first_height,
        pixels_per_point == first_pixels_per_point,
        height == first.scale().height_in_points,
        pixels_per_point == first.scale().pixels_per_point,
{
}

/// The width of a character is that of the glyph that the list then remembers for it, and
/// the font that shows it is the first with an answer.
pub proof fn law_width_is_of_shown_glyph<
    F: Fn(FontScale, Measure) -> Float32,
    R: Fn(&CosmicFont, u16, Float32) -> Option<GlyphImage>,
>(
    font: &mut Font,
    store: &mut FontStore<F, R>,
    c: char,
    width: Float32,
    i: int,
)
    requires
        old(store).well_formed(),
        old(font).well_formed(*old(store)),
        call_ensures(Font::glyph_width::<F, R>, (font, store, c), Ok::<_, GlyphError>(width)),
    ensures
        final(font).cache().contains_key(c),
        width == final(font).cache()[c].1.advance_width,
        answers_first(*old(font), *old(store), c, i) ==> {
            &&& final(font).cache()[c].0 == i
            &&& face_at(*final(font), *final(store), i).cache()[c].advance_width == width
        },
        all_pass(*old(font), *old(store), c) ==> width == old(font).replacement().1.advance_width,
{
    let faces = old(font).faces(*old(store));
    let entry = final(font).cache()[c];
    law_font_lookup(*old(font), *old(store), c, Ok(entry), *final(font), *final(store));
    law_faces_extend(faces, final(font).faces(*final(store)));
    lemma_none(*old(font), *old(store), c);
    if answers_first(*old(font), *old(store), c, i) {
        lemma_first(*old(font), *old(store), c, i);
        let after = final(font).faces(*final(store));
        assert(first_at(after, c, i));
        assert(!unsupported(after, c));
        assert(from_first(after, c, entry));
        assert(first_at(faces, c, entry.0 as int));
        assert(after[i] == face_at(*final(font), *final(store), i));
    }
}

/// The font that is handed out with a glyph is the one that shows the character: the first
/// with an answer. A list without fonts hands out none, and the replacement.
pub proof fn law_font_of_glyph<
    'a,
    F: Fn(FontScale, Measure) -> Float32,
    R: Fn(&CosmicFont, u16, Float32) -> Option<GlyphImage>,
>(
    font: &mut Font,
    store: &'a mut FontStore<F, R>,
    c: char,
    shown_by: Option<&'a FontImpl>,
    info: GlyphInfo,
    i: int,
)
    requires
        old(store).well_formed(),
        old(font).well_formed(*old(store)),
        call_ensures(
            Font::font_impl_and_glyph_info::<F, R>,
            (font, store, c),
            Ok::<_, GlyphError>((shown_by, info)),
        ),
    ensures
        shown_by is None <==> old(font).fonts().len() == 0,
        shown_by is None ==> info == old(font).replacement().1 && store_stays(
            *old(store),
            *final(store),
        ),
        answers_first(*old(font), *old(store), c, i) ==> {
            &&& shown_by == Some(&face_at(*final(font), *final(store), i))
            &&& face_at(*final(font), *final(store), i).cache().contains_key(c)
            &&& face_at(*final(font), *final(store), i).cache()[c] == info
        },
        all_pass(*old(font), *old(store), c) ==> info == old(font).replacement().1,
{
    let faces = old(font).faces(*old(store));
    if old(font).fonts().len() > 0 {
        let entry = final(font).cache()[c];
        law_font_lookup(*old(font), *old(store), c, Ok(entry), *final(font), *final(store));
        law_faces_extend(faces, final(font).faces(*final(store)));
        lemma_none(*old(font), *old(store), c);
        if answers_first(*old(font), *old(store), c, i) {
            lemma_first(*old(font), *old(store), c, i);
            let after = final(font).faces(*final(store));
            assert(first_at(after, c, i));
            assert(!unsupported(after, c));
            assert(from_first(after, c, entry));
            assert(first_at(faces, c, entry.0 as int));
            assert(after[i] == face_at(*final(font), *final(store), i));
        }
    }
}

} // verus!
