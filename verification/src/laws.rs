//! What holds of the library as a whole.

use crate::atlas::{in_rect, AtlasView};
use crate::character::{is_invisible, is_scalar};
use crate::face::{glyph_number, listed_code_points};
use crate::fallback::{
    all_listed, first_at, from_first, law_faces_extend, replacement_char, unsupported, FontIndex,
};
use crate::font::{all_asked, all_looked_up, law_all_looked_up, law_font_lookup, Font};
use crate::font_impl::{
    is_made_of_space, law_cache_is_right, law_lookup, law_lookup_measures, names_list,
    space_measure, FontImpl,
};
use crate::glyph::{GlyphError, GlyphImage, GlyphInfo, ImageView, UvRect};
use crate::measure::{measured, measures_one, FontScale, Measure, TAB_SIZE};
use crate::number::Float32;
use crate::placement::{rect_of, rect_sound};
use crate::render::Canvas;
use crate::store::{law_fonts_well_formed, FontStore};
use cosmic_text::Font as CosmicFont;
use vstd::prelude::*;

verus! {

/// A font gives no glyph for a character that it ignores, and nothing changes.
pub proof fn law_ignored_character<F: Fn(FontScale, Measure) -> Float32>(
    before: FontImpl,
    c: char,
    measure: F,
    before_canvas: Canvas,
    result: Result<Option<GlyphInfo>, GlyphError>,
    after: FontImpl,
    after_canvas: Canvas,
)
    requires
        before.well_formed(),
        before.ignores(c),
        before.looked_up(c, measure, before_canvas, result, after, after_canvas),
    ensures
        result == Ok::<_, GlyphError>(None::<GlyphInfo>),
        after == before,
        after_canvas == before_canvas,
{
    law_lookup(
        before,
        c,
        measure,
        before_canvas,
        result,
        after,
        after_canvas,
    );
}

/// What a font ignores depends on its name and on the names of the fonts that are delivered
/// with the program alone: not on its tables, its size, or what has been looked up.
pub proof fn law_ignored_by_name(one: FontImpl, other: FontImpl, names: Seq<String>, c: char)
    requires
        one.name() == other.name(),
        one.builtin() == names_list(names, one.name()),
        other.builtin() == names_list(names, other.name()),
    ensures
        one.ignores(c) == other.ignores(c),
{
}

/// No character is both ignored and invisible.
pub proof fn law_ignored_is_not_invisible(font: FontImpl, c: char)
    ensures
        !(font.ignores(c) && is_invisible(c)),
{
}

/// Where the tables of a font do not fit together, looking up a character that is not in
/// the cache gives an error, and nothing changes. Characters that need no tables are shown
/// all the same.
pub proof fn law_malformed<F: Fn(FontScale, Measure) -> Float32>(
    before: FontImpl,
    c: char,
    measure: F,
    before_canvas: Canvas,
    result: Result<Option<GlyphInfo>, GlyphError>,
    after: FontImpl,
    after_canvas: Canvas,
)
    requires
        before.well_formed(),
        before.malformed(c),
        before.looked_up(c, measure, before_canvas, result, after, after_canvas),
    ensures
        if c == '\n' || before.ignores(c) {
            result == Ok::<_, GlyphError>(None::<GlyphInfo>)
        } else {
            result == Err::<Option<GlyphInfo>, _>(GlyphError::MalformedFont)
        },
        !is_invisible(c),
        after == before,
        after_canvas == before_canvas,
{
    if before.cache().contains_key(c) {
        law_cache_is_right(before, c);
    }
}

/// A character that every font ignores or has no glyph for is shown as the
/// replacement, and nothing is drawn.
pub proof fn law_unsupported_is_replaced<
    F: Fn(FontScale, Measure) -> Float32,
    R: Fn(&CosmicFont, u16, Float32) -> Option<GlyphImage>,
>(
    before: Font,
    before_store: FontStore<F, R>,
    c: char,
    result: Result<(FontIndex, GlyphInfo), GlyphError>,
    after: Font,
    after_store: FontStore<F, R>,
)
    requires
        before_store.well_formed(),
        before.well_formed(before_store),
        unsupported(before.faces(before_store), c),
        before.looked_up(before_store, c, result, after, after_store),
    ensures
        result == Ok::<_, GlyphError>(before.replacement()),
        after_store.unchanged(before_store),
{
}

/// A font gives no glyph for a line break, and nothing changes.
pub proof fn law_line_break_in_font<F: Fn(FontScale, Measure) -> Float32>(
    before: FontImpl,
    measure: F,
    before_canvas: Canvas,
    result: Result<Option<GlyphInfo>, GlyphError>,
    after: FontImpl,
    after_canvas: Canvas,
)
    requires
        before.well_formed(),
        before.looked_up('\n', measure, before_canvas, result, after, after_canvas),
    ensures
        result == Ok::<_, GlyphError>(None::<GlyphInfo>),
        after == before,
        after_canvas == before_canvas,
{
    law_lookup(
        before,
        '\n',
        measure,
        before_canvas,
        result,
        after,
        after_canvas,
    );
}

/// A line break is shown as the replacement, whatever the fonts are, and nothing is drawn.
pub proof fn law_line_break<
    F: Fn(FontScale, Measure) -> Float32,
    R: Fn(&CosmicFont, u16, Float32) -> Option<GlyphImage>,
>(
    before: Font,
    before_store: FontStore<F, R>,
    result: Result<(FontIndex, GlyphInfo), GlyphError>,
    after: Font,
    after_store: FontStore<F, R>,
)
    requires
        before_store.well_formed(),
        before.well_formed(before_store),
        before.looked_up(before_store, '\n', result, after, after_store),
    ensures
        result == Ok::<_, GlyphError>(before.replacement()),
        after_store.unchanged(before_store),
{
    assert(unsupported(before.faces(before_store), '\n'));
}

/// A font shows an invisible character without width and without pixels, and draws
/// nothing.
pub proof fn law_invisible_in_font<F: Fn(FontScale, Measure) -> Float32>(
    before: FontImpl,
    c: char,
    measure: F,
    before_canvas: Canvas,
    result: Result<Option<GlyphInfo>, GlyphError>,
    after: FontImpl,
    after_canvas: Canvas,
)
    requires
        before.well_formed(),
        is_invisible(c),
        before.looked_up(c, measure, before_canvas, result, after, after_canvas),
    ensures
        result matches Ok(Some(info)) && info.is_blank() && info.uv_rect.min@
            == info.uv_rect.max@,
        after_canvas == before_canvas,
{
    assert(before.supports(c));
    if before.cache().contains_key(c) {
        law_cache_is_right(before, c);
    }
}

/// An invisible character has no width and no pixels, whatever the fonts are.
pub proof fn law_invisible<
    F: Fn(FontScale, Measure) -> Float32,
    R: Fn(&CosmicFont, u16, Float32) -> Option<GlyphImage>,
>(
    before: Font,
    before_store: FontStore<F, R>,
    c: char,
    result: Result<(FontIndex, GlyphInfo), GlyphError>,
    after: Font,
    after_store: FontStore<F, R>,
)
    requires
        before_store.well_formed(),
        before.well_formed(before_store),
        is_invisible(c),
        before.looked_up(before_store, c, result, after, after_store),
    ensures
        result matches Ok(entry) && entry.0 == 0 && entry.1.is_blank(),
        after_store.canvas() == before_store.canvas(),
{
    let faces = before.faces(before_store);
    if faces.len() == 0 {
        assert(unsupported(faces, c));
    } else {
        assert(faces[0].supports(c));
        assert(before_store.fonts()[before.fonts()[0] as int] == faces[0]);
        if before.cache().contains_key(c) {
            let entry = before.cache()[c];
            assert(from_first(faces, c, entry));
            assert(entry.0 == 0);
            law_fonts_well_formed(before_store, before.fonts()[0]);
            law_cache_is_right(faces[0], c);
        } else {
            let i = match result {
                Ok(entry) => entry.0 as int,
                Err(error) => choose|i: int|
                    {
                        &&& #[trigger] first_at(faces, c, i)
                        &&& before_store.looked_up(
                            before.fonts()[i],
                            c,
                            Err(error),
                            after_store,
                        )
                    },
            };
            assert(first_at(faces, c, i));
            assert(i == 0);
            law_fonts_well_formed(before_store, before.fonts()[0]);
            if faces[0].cache().contains_key(c) {
                law_cache_is_right(faces[0], c);
            }
        }
    }
}

/// Once a character has been looked up, looking it up again gives the same, and
/// changes nothing: however much has been looked up in between, in this font or in
/// others.
pub proof fn law_lookup_is_stable<
    F: Fn(FontScale, Measure) -> Float32,
    R: Fn(&CosmicFont, u16, Float32) -> Option<GlyphImage>,
>(
    font: Font,
    c: char,
    later: Font,
    later_store: FontStore<F, R>,
    result: Result<(FontIndex, GlyphInfo), GlyphError>,
    after: Font,
    after_store: FontStore<F, R>,
)
    requires
        font.cache().contains_key(c),
        font.cache().submap_of(later.cache()),
        later.looked_up(later_store, c, result, after, after_store),
    ensures
        result == Ok::<_, GlyphError>(font.cache()[c]),
        after == later,
        after_store.unchanged(later_store),
{
}

/// A character keeps its glyph: after it has been looked up, and any characters after
/// it, looking it up again gives the same, and changes nothing.
pub proof fn law_lookup_twice<
    F: Fn(FontScale, Measure) -> Float32,
    R: Fn(&CosmicFont, u16, Float32) -> Option<GlyphImage>,
>(
    first: Font,
    first_store: FontStore<F, R>,
    c: char,
    entry: (FontIndex, GlyphInfo),
    second: Font,
    second_store: FontStore<F, R>,
    between: Seq<char>,
    third: Font,
    third_store: FontStore<F, R>,
    again: Result<(FontIndex, GlyphInfo), GlyphError>,
    last: Font,
    last_store: FontStore<F, R>,
)
    requires
        first_store.well_formed(),
        first.well_formed(first_store),
        first.looked_up(first_store, c, Ok(entry), second, second_store),
        second_store.well_formed(),
        all_looked_up(second, second_store, between, third, third_store),
        third.looked_up(third_store, c, again, last, last_store),
    ensures
        again == Ok::<_, GlyphError>(entry),
        last == third,
        last_store.unchanged(third_store),
{
    law_font_lookup(first, first_store, c, Ok(entry), second, second_store);
    law_all_looked_up(second, second_store, between, third, third_store);
    law_lookup_is_stable(second, c, third, third_store, again, last, last_store);
}

/// A font that is added at the end of a list does not change how a character is shown
/// that a font before it supports.
pub proof fn law_fallbacks_come_last(
    faces: Seq<FontImpl>,
    more: Seq<FontImpl>,
    c: char,
    entry: (FontIndex, GlyphInfo),
)
    requires
        !unsupported(faces, c),
    ensures
        from_first(faces, c, entry) <==> from_first(faces + more, c, entry),
{
    let all = faces + more;
    assert forall|i: int| 0 <= i < faces.len() implies #[trigger] all[i] == faces[i] by {}
    if from_first(all, c, entry) {
        if entry.0 >= faces.len() {
            assert forall|i: int| 0 <= i < faces.len() implies !(#[trigger] faces[i]).supports(
                c,
            ) by {
                assert(!all[i].supports(c));
            }
        }
        assert forall|i: int| 0 <= i < entry.0 implies !(#[trigger] faces[i]).supports(c) by {
            assert(!all[i].supports(c));
        }
    }
}

/// All the glyphs of a text can be displayed if and only if each of them can.
pub proof fn law_has_glyphs_means_each<
    F: Fn(FontScale, Measure) -> Float32,
    R: Fn(&CosmicFont, u16, Float32) -> Option<GlyphImage>,
>(
    before: Font,
    before_store: FontStore<F, R>,
    chars: Seq<char>,
    has_glyphs: bool,
    after: Font,
    after_store: FontStore<F, R>,
)
    requires
        before_store.well_formed(),
        before.well_formed(before_store),
        all_asked(before, before_store, chars, Ok(has_glyphs), after, after_store),
    ensures
        has_glyphs ==> forall|i: int|
            0 <= i < chars.len() ==> after.cache().contains_key(#[trigger] chars[i])
                && after.displays(chars[i]),
        !has_glyphs ==> exists|i: int|
            0 <= i < chars.len() && after.cache().contains_key(#[trigger] chars[i])
                && !after.displays(chars[i]),
{
    if has_glyphs {
        law_all_looked_up(before, before_store, chars, after, after_store);
        assert forall|i: int| 0 <= i < chars.len() implies after.cache().contains_key(
            #[trigger] chars[i],
        ) by {
            assert(chars.to_set().contains(chars[i]));
            assert(after.cache().dom().contains(chars[i]));
        }
    } else {
        let n = choose|n: int|
            {
                &&& 0 <= n < chars.len()
                &&& #[trigger] all_looked_up(
                    before,
                    before_store,
                    chars.take(n + 1),
                    after,
                    after_store,
                )
                &&& forall|i: int| 0 <= i < n ==> after.displays(#[trigger] chars[i])
                &&& !after.displays(chars[n])
            };
        let asked = chars.take(n + 1);
        law_all_looked_up(before, before_store, asked, after, after_store);
        assert(asked[n] == chars[n]);
        assert(asked.to_set().contains(chars[n]));
        assert(after.cache().dom().contains(chars[n]));
    }
}

/// After the characters of a text have been looked up, none of them has to be drawn
/// again.
pub proof fn law_preloaded<
    F: Fn(FontScale, Measure) -> Float32,
    R: Fn(&CosmicFont, u16, Float32) -> Option<GlyphImage>,
>(
    before: Font,
    before_store: FontStore<F, R>,
    chars: Seq<char>,
    font: Font,
    store: FontStore<F, R>,
    c: char,
    result: Result<(FontIndex, GlyphInfo), GlyphError>,
    after: Font,
    after_store: FontStore<F, R>,
)
    requires
        before_store.well_formed(),
        before.well_formed(before_store),
        all_looked_up(before, before_store, chars, font, store),
        chars.contains(c),
        font.looked_up(store, c, result, after, after_store),
    ensures
        result == Ok::<_, GlyphError>(font.cache()[c]),
        after == font,
        after_store.unchanged(store),
{
    law_all_looked_up(before, before_store, chars, font, store);
    assert(chars.to_set().contains(c));
    assert(font.cache().dom().contains(c));
}

/// The font that shows a character is in the list, if the list is not empty.
pub proof fn law_index_in_list<
    F: Fn(FontScale, Measure) -> Float32,
    R: Fn(&CosmicFont, u16, Float32) -> Option<GlyphImage>,
>(
    font: Font,
    store: FontStore<F, R>,
    c: char,
)
    requires
        font.well_formed(store),
        font.fonts().len() > 0,
        font.cache().contains_key(c),
    ensures
        font.cache()[c].0 < font.fonts().len(),
{
}

/// Characters that no font supports are said to have no glyph.
pub proof fn law_unsupported_has_no_glyph<
    F: Fn(FontScale, Measure) -> Float32,
    R: Fn(&CosmicFont, u16, Float32) -> Option<GlyphImage>,
>(
    font: Font,
    store: FontStore<F, R>,
    c: char,
)
    requires
        font.well_formed(store),
        font.cache().contains_key(c),
        unsupported(font.faces(store), c),
        font.replacement().1.same_glyph(font.replacement().1),
    ensures
        !font.displays(c),
{
}

/// A character that no font supports is shown like the replacement character, and if there
/// is none, as nothing.
pub proof fn law_shown_like_replacement<
    F: Fn(FontScale, Measure) -> Float32,
    R: Fn(&CosmicFont, u16, Float32) -> Option<GlyphImage>,
>(
    font: Font,
    store: FontStore<F, R>,
    c: char,
)
    requires
        font.well_formed(store),
        font.cache().contains_key(c),
        unsupported(font.faces(store), c),
    ensures
        match replacement_char(font.faces(store)) {
            Some(d) => font.cache().contains_key(d) ==> font.cache()[c] == font.cache()[d],
            None => font.cache()[c].0 == 0 && font.cache()[c].1.is_blank(),
        },
{
    let faces = font.faces(store);
    if let Some(d) = replacement_char(faces) {
        if font.cache().contains_key(d) {
            let (i, j) = (font.cache()[d].0 as int, font.replacement().0 as int);
            assert(from_first(faces, d, font.cache()[d]));
            assert(from_first(faces, d, font.replacement()));
            if i < j {
                assert(!faces[i].supports(d));
            } else if j < i {
                assert(!faces[j].supports(d));
            }
        }
    }
}

/// The character whose glyph is the replacement is said to have a glyph, and a font of the
/// list supports it.
pub proof fn law_replacement_has_glyph<
    F: Fn(FontScale, Measure) -> Float32,
    R: Fn(&CosmicFont, u16, Float32) -> Option<GlyphImage>,
>(
    font: Font,
    store: FontStore<F, R>,
    c: char,
)
    requires
        font.well_formed(store),
        replacement_char(font.faces(store)) == Some(c),
    ensures
        font.displays(c),
        !unsupported(font.faces(store), c),
{
}

/// Every collected character but the line break is supported, if the fonts find the code
/// points that they list.
pub proof fn law_collected_is_supported<
    F: Fn(FontScale, Measure) -> Float32,
    R: Fn(&CosmicFont, u16, Float32) -> Option<GlyphImage>,
>(
    font: Font,
    store: FontStore<F, R>,
    c: char,
)
    requires
        font.well_formed(store),
        font.collected() matches Some(characters) && characters.contains(c as u32),
        c != '\n',
        forall|i: int, k: int|
            #![trigger listed_code_points(font.faces(store)[i].font())[k]]
            0 <= i < font.fonts().len() && 0 <= k < listed_code_points(
                font.faces(store)[i].font(),
            ).len() ==> glyph_number(
                font.faces(store)[i].font(),
                listed_code_points(font.faces(store)[i].font())[k] as char,
            ) != 0,
    ensures
        !unsupported(font.faces(store), c),
{
    let faces = font.faces(store);
    assert(all_listed(faces).contains(c as u32));
    let i = choose|i: int|
        0 <= i < faces.len() && (#[trigger] faces[i]).listed().contains(c as u32 as char)
            && is_scalar(c as u32);
    let all = listed_code_points(faces[i].font()).map_values(|cp: u32| cp as char);
    let shown = |d: char| !faces[i].ignores(d);
    lemma_filtered(all, shown, c);
    let k = choose|k: int| 0 <= k < all.len() && all[k] == c;
    assert(listed_code_points(faces[i].font())[k] as char == c);
    assert(faces[i].supports(c));
}

/// What is left after filtering was there before, and passes the filter.
proof fn lemma_filtered(s: Seq<char>, keep: spec_fn(char) -> bool, c: char)
    requires
        s.filter(keep).contains(c),
    ensures
        s.contains(c),
        keep(c),
    decreases s.len(),
{
    reveal(Seq::filter);
    if s.len() > 0 {
        let rest = s.drop_last().filter(keep);
        if rest.contains(c) {
            lemma_filtered(s.drop_last(), keep, c);
            let i = choose|i: int| 0 <= i < s.len() - 1 && s.drop_last()[i] == c;
            assert(s[i] == c);
        } else {
            let i = choose|i: int| 0 <= i < s.filter(keep).len() && s.filter(keep)[i] == c;
            if i < rest.len() {
                assert(rest[i] == c);
            }
            assert(s[s.len() - 1] == c);
        }
    }
}

/// A glyph is drawn inside of the texture.
pub proof fn law_glyph_inside_texture(
    before: AtlasView,
    w: nat,
    h: nat,
    data: Seq<u8>,
    after: AtlasView,
    x: int,
    y: int,
)
    requires
        before.fits(w, h),
        before.painted(w, h, data, after),
        in_rect(x, y, before.position(w, h), w, h),
    ensures
        after.in_bounds(x, y),
{
}

/// Until the texture starts over, glyphs do not overlap: each is drawn on pixels that
/// nothing was drawn on before, and nothing is drawn on them afterwards.
pub proof fn law_glyphs_do_not_overlap(
    before: AtlasView,
    w: nat,
    h: nat,
    data: Seq<u8>,
    after: AtlasView,
    x: int,
    y: int,
)
    requires
        before.has_room(w, h),
        before.painted(w, h, data, after),
        0 <= x,
        0 <= y,
    ensures
        in_rect(x, y, before.position(w, h), w, h) ==> before.fresh(x, y) && !after.fresh(x, y),
        after.fresh(x, y) ==> before.fresh(x, y),
        after.overflowed == before.overflowed,
{
}

/// A pixel that is not part of the new glyph keeps its coverage.
pub proof fn law_other_pixels_stay(
    before: AtlasView,
    w: nat,
    h: nat,
    data: Seq<u8>,
    after: AtlasView,
    x: int,
    y: int,
)
    requires
        before.painted(w, h, data, after),
        !in_rect(x, y, before.position(w, h), w, h),
    ensures
        after.coverage(x, y) == before.coverage(x, y),
{
}

/// The corners of the rectangle of a drawn glyph are as far apart as the image is
/// large, as long as the texture can be addressed with 16 bits.
pub proof fn law_rect_has_image_size<F: Fn(FontScale, Measure) -> Float32>(
    measure: F,
    scale: FontScale,
    image: ImageView,
    pos: (nat, nat),
    rect: UvRect,
)
    requires
        rect_of(measure, scale, image, pos, rect),
        pos.0 + image.width <= u16::MAX,
        pos.1 + image.height <= u16::MAX,
    ensures
        rect.max@[0] - rect.min@[0] == image.width,
        rect.max@[1] - rect.min@[1] == image.height,
        image.width > 0 ==> rect.min@ != rect.max@,
{
}

/// A tab and a thin space are made from the space of the font, even if the font has glyphs
/// of its own for them: they are painted like the space, and as wide as is worked out from
/// the width of the space, whichever of the two is looked up first. Nothing is drawn but
/// the space.
pub proof fn law_made_of_space<F: Fn(FontScale, Measure) -> Float32>(
    before: FontImpl,
    c: char,
    measure: F,
    before_canvas: Canvas,
    info: GlyphInfo,
    after: FontImpl,
    after_canvas: Canvas,
)
    requires
        before.well_formed(),
        before.measured_by(measure, before_canvas.atlas),
        is_made_of_space(c),
        before.glyph_id(' ') != 0,
        before.looked_up(c, measure, before_canvas, Ok(Some(info)), after, after_canvas),
    ensures
        after.cache().contains_key(' '),
        info.uv_rect == after.cache()[' '].uv_rect,
        measured(
            measure,
            before.scale(),
            space_measure(c, after.cache()[' '].advance_width),
            info.advance_width,
        ),
        before.cache().contains_key(' ') ==> after_canvas == before_canvas,
        !before.cache().contains_key(' ') ==> before.allocated(
            before.glyph_id(' '),
            measure,
            before_canvas,
            after_canvas,
            after.cache()[' '],
        ),
{
    if before.cache().contains_key(c) {
        law_cache_is_right(before, c);
        assert(before.entry_measured(measure, before_canvas.atlas, c));
    }
}

/// If the first font has a space, a tab is as wide as is worked out from the width of the
/// space.
pub proof fn law_tab_width<
    F: Fn(FontScale, Measure) -> Float32,
    R: Fn(&CosmicFont, u16, Float32) -> Option<GlyphImage>,
>(font: Font, store: FontStore<F, R>)
    requires
        store.well_formed(),
        font.well_formed(store),
        font.fonts().len() > 0,
        font.faces(store)[0].glyph_id(' ') != 0,
        font.cache().contains_key(' '),
        font.cache().contains_key('\t'),
    ensures
        font.cache()[' '].0 == 0,
        font.cache()['\t'].0 == 0,
        measured(
            store.measure(),
            font.faces(store)[0].scale(),
            Measure::Tab { spaces: TAB_SIZE, space: font.cache()[' '].1.advance_width },
            font.cache()['\t'].1.advance_width,
        ),
{
    let faces = font.faces(store);
    let face = faces[0];
    assert(face == store.fonts()[font.fonts()[0] as int]);
    law_fonts_well_formed(store, font.fonts()[0]);
    assert(face.supports(' ') && face.supports('\t'));
    assert(from_first(faces, ' ', font.cache()[' ']));
    assert(from_first(faces, '\t', font.cache()['\t']));
    law_cache_is_right(face, '\t');
    assert(face.entry_measured(store.measure(), store.atlas(), '\t'));
}

/// The rectangle of every glyph that one font gives is sound, whether it has just been drawn
/// or was looked up before, as long as the texture can be addressed with 16 bits.
pub proof fn law_rect_in_font<F: Fn(FontScale, Measure) -> Float32>(
    before: FontImpl,
    c: char,
    measure: F,
    before_canvas: Canvas,
    info: GlyphInfo,
    after: FontImpl,
    after_canvas: Canvas,
)
    requires
        before.well_formed(),
        before.measured_by(measure, before_canvas.atlas),
        before.looked_up(c, measure, before_canvas, Ok(Some(info)), after, after_canvas),
        after_canvas.atlas.addressable(),
    ensures
        rect_sound(measure, before.scale(), info.uv_rect),
        info.uv_rect.min@[0] <= info.uv_rect.max@[0],
        info.uv_rect.min@[1] <= info.uv_rect.max@[1],
        info.uv_rect.min@ == info.uv_rect.max@ <==> info.uv_rect.is_blank(),
{
    let result: Result<Option<GlyphInfo>, GlyphError> = Ok(Some(info));
    law_lookup(before, c, measure, before_canvas, result, after, after_canvas);
    law_lookup_measures(before, c, measure, before_canvas, result, after, after_canvas);
    assert(after.entry_measured(measure, after_canvas.atlas, c));
    let rect = info.uv_rect;
    assert(rect.min@ == rect.max@ ==> rect.min@[0] == rect.max@[0]);
}

/// Every rectangle that a font hands out is sound, as long as the texture can be addressed
/// with 16 bits: its corners are in order, it covers no pixels if and only if it is zero
/// throughout, and otherwise its size is what is worked out from the distance of its
/// corners.
pub proof fn law_rect_is_sound<
    F: Fn(FontScale, Measure) -> Float32,
    R: Fn(&CosmicFont, u16, Float32) -> Option<GlyphImage>,
>(
    font: Font,
    store: FontStore<F, R>,
    c: char,
)
    requires
        store.well_formed(),
        font.well_formed(store),
        store.atlas().addressable(),
        font.cache().contains_key(c),
    ensures
        ({
            let (i, info) = font.cache()[c];
            let rect = info.uv_rect;
            &&& rect.min@[0] <= rect.max@[0]
            &&& rect.min@[1] <= rect.max@[1]
            &&& rect.min@ == rect.max@ <==> rect.is_blank()
            &&& !rect.is_blank() ==> i < font.fonts().len() && rect_sound(
                store.measure(),
                font.faces(store)[i as int].scale(),
                rect,
            )
        }),
{
    let faces = font.faces(store);
    let entry = font.cache()[c];
    let shown = if unsupported(faces, c) {
        replacement_char(faces)
    } else {
        Some(c)
    };
    if let Some(d) = shown {
        assert(from_first(faces, d, entry));
        let id = font.fonts()[entry.0 as int];
        assert(faces[entry.0 as int] == store.fonts()[id as int]);
        law_fonts_well_formed(store, id);
        assert(faces[entry.0 as int].entry_measured(store.measure(), store.atlas(), d));
    }
    let rect = entry.1.uv_rect;
    assert(rect.min@ == rect.max@ ==> rect.min@[0] == rect.max@[0]);
}

/// The width of a glyph depends on the font and on the character alone, if measuring does
/// not change: not on the texture, and not on what else has been looked up.
pub proof fn law_width_in_font<F: Fn(FontScale, Measure) -> Float32>(
    one: FontImpl,
    other: FontImpl,
    measure: F,
    atlas: AtlasView,
    other_atlas: AtlasView,
    c: char,
)
    requires
        one.well_formed(),
        other.well_formed(),
        one.measured_by(measure, atlas),
        other.measured_by(measure, other_atlas),
        other.same_face(one),
        measures_one(measure),
        one.cache().contains_key(c),
        other.cache().contains_key(c),
    ensures
        one.cache()[c].advance_width == other.cache()[c].advance_width,
{
    law_cache_is_right(one, c);
    law_cache_is_right(other, c);
    assert(one.entry_measured(measure, atlas, c));
    assert(other.entry_measured(measure, other_atlas, c));
    if one.uses_space(c) && !is_invisible(c) {
        assert(one.entry_measured(measure, atlas, ' '));
        assert(other.entry_measured(measure, other_atlas, ' '));
    }
}

/// Which font shows a character, and how wide the character is, depends on the fonts and on
/// the character alone, if measuring does not change: not on what else has been looked up.
pub proof fn law_width<
    F: Fn(FontScale, Measure) -> Float32,
    R: Fn(&CosmicFont, u16, Float32) -> Option<GlyphImage>,
>(
    one: Font,
    one_store: FontStore<F, R>,
    other: Font,
    other_store: FontStore<F, R>,
    c: char,
)
    requires
        one_store.well_formed(),
        other_store.well_formed(),
        one.well_formed(one_store),
        other.well_formed(other_store),
        one_store.measure() == other_store.measure(),
        measures_one(one_store.measure()),
        one.fonts().len() == other.fonts().len(),
        forall|i: int|
            0 <= i < one.fonts().len() ==> (#[trigger] other.faces(other_store)[i]).same_face(
                one.faces(one_store)[i],
            ),
        one.cache().contains_key(c),
        other.cache().contains_key(c),
    ensures
        one.cache()[c].0 == other.cache()[c].0,
        one.cache()[c].1.advance_width == other.cache()[c].1.advance_width,
{
    let (faces, other_faces) = (one.faces(one_store), other.faces(other_store));
    assert forall|i: int, d: char| 0 <= i < faces.len() implies #[trigger] faces[i].supports(d)
        == other_faces[i].supports(d) by {
        assert(other_faces[i].same_face(faces[i]));
    }
    assert forall|d: char| #[trigger] unsupported(faces, d) == unsupported(other_faces, d) by {
        if unsupported(faces, d) {
            assert forall|i: int| 0 <= i < other_faces.len() implies !(
            #[trigger] other_faces[i]).supports(d) by {
                assert(!faces[i].supports(d));
            }
        }
        if unsupported(other_faces, d) {
            assert forall|i: int| 0 <= i < faces.len() implies !(#[trigger] faces[i]).supports(
                d,
            ) by {
                assert(!other_faces[i].supports(d));
            }
        }
    }
    let shown = if unsupported(faces, c) {
        replacement_char(faces)
    } else {
        Some(c)
    };
    if let Some(d) = shown {
        let (entry, other_entry) = (one.cache()[c], other.cache()[c]);
        assert(from_first(faces, d, entry));
        assert(from_first(other_faces, d, other_entry));
        let (i, j) = (entry.0 as int, other_entry.0 as int);
        if i < j {
            assert(!other_faces[i].supports(d));
        } else if j < i {
            assert(!faces[j].supports(d));
        }
        let (id, other_id) = (one.fonts()[i], other.fonts()[i]);
        assert(faces[i] == one_store.fonts()[id as int]);
        assert(other_faces[i] == other_store.fonts()[other_id as int]);
        law_fonts_well_formed(one_store, id);
        law_fonts_well_formed(other_store, other_id);
        law_width_in_font(
            faces[i],
            other_faces[i],
            one_store.measure(),
            one_store.atlas(),
            other_store.atlas(),
            d,
        );
    }
}

/// Looking up characters beforehand changes no answer: neither which font shows a
/// character, nor how wide it is, if measuring does not change, nor which characters the
/// fonts list.
pub proof fn law_preloading_changes_no_answer<
    F: Fn(FontScale, Measure) -> Float32,
    R: Fn(&CosmicFont, u16, Float32) -> Option<GlyphImage>,
>(
    font: Font,
    store: FontStore<F, R>,
    chars: Seq<char>,
    preloaded: Font,
    preloaded_store: FontStore<F, R>,
    c: char,
    entry: (FontIndex, GlyphInfo),
    after: Font,
    after_store: FontStore<F, R>,
    preloaded_entry: (FontIndex, GlyphInfo),
    preloaded_after: Font,
    preloaded_after_store: FontStore<F, R>,
)
    requires
        store.well_formed(),
        font.well_formed(store),
        measures_one(store.measure()),
        all_looked_up(font, store, chars, preloaded, preloaded_store),
        preloaded_store.well_formed(),
        font.looked_up(store, c, Ok(entry), after, after_store),
        after_store.well_formed(),
        preloaded.looked_up(
            preloaded_store,
            c,
            Ok(preloaded_entry),
            preloaded_after,
            preloaded_after_store,
        ),
        preloaded_after_store.well_formed(),
    ensures
        preloaded_entry.0 == entry.0,
        preloaded_entry.1.advance_width == entry.1.advance_width,
        all_listed(preloaded.faces(preloaded_store)) == all_listed(font.faces(store)),
{
    law_font_lookup(font, store, c, Ok(entry), after, after_store);
    law_all_looked_up(font, store, chars, preloaded, preloaded_store);
    law_font_lookup(
        preloaded,
        preloaded_store,
        c,
        Ok(preloaded_entry),
        preloaded_after,
        preloaded_after_store,
    );
    law_faces_extend(font.faces(store), preloaded.faces(preloaded_store));
    let faces = font.faces(store);
    let after_faces = after.faces(after_store);
    let middle = preloaded.faces(preloaded_store);
    let last = preloaded_after.faces(preloaded_after_store);
    assert forall|i: int| 0 <= i < after.fonts().len() implies (#[trigger] last[i]).same_face(
        after_faces[i],
    ) by {
        assert(after_faces[i].extends(faces[i]));
        assert(middle[i].extends(faces[i]));
        assert(last[i].extends(middle[i]));
    }
    law_width(after, after_store, preloaded_after, preloaded_after_store, c);
}

} // verus!
