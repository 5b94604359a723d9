//! What holds of whole texts, of all characters of a list of fonts, and of plain values.

use crate::face::{font_code_points, font_data, font_directory};
use crate::fallback::all_listed;
use crate::font::{all_looked_up, common_characters, law_all_looked_up, stopped_at, Font};
use crate::glyph::{GlyphError, GlyphImage, GlyphInfo, UvRect};
use crate::laws_drawing::all_zero;
use crate::laws_fonts::{differ, face_at, glyphs_differ, lemma_glyphs_differ, store_stays};
use crate::laws_lookup::{leaves_out, lemma_filter, lemma_leaves_out, only_characters};
use crate::measure::{FontScale, Measure};
use crate::number::Float32;
use crate::store::FontStore;
use crate::tables::{charmap_lists, charmap_truncated};
use cosmic_text::Font as CosmicFont;
use std::collections::BTreeSet;
use vstd::prelude::*;

verus! {

/// The character, which has been looked up, is told from the replacement: it is the one that
/// the replacement is the glyph of, or another font shows it, or its glyph differs.
pub open spec fn told_apart(font: Font, c: char) -> bool {
    let (i, info) = font.cache()[c];
    ||| font.replaces_with() == Some(c)
    ||| i != font.replacement().0
    ||| glyphs_differ(info, font.replacement().1)
}

/// All the glyphs of a text can be displayed if and only if each of its characters is told
/// from the replacement. If so, all have been looked up; if not, one has that is not.
pub proof fn law_has_glyphs<
    F: Fn(FontScale, Measure) -> Float32,
    R: Fn(&CosmicFont, u16, Float32) -> Option<GlyphImage>,
>(
    font: &mut Font,
    store: &mut FontStore<F, R>,
    s: &str,
    has_glyphs: bool,
)
    requires
        old(store).well_formed(),
        old(font).well_formed(*old(store)),
        call_ensures(Font::has_glyphs::<F, R>, (font, store, s), Ok::<_, GlyphError>(has_glyphs)),
    ensures
        has_glyphs ==> forall|i: int|
            0 <= i < s@.len() ==> final(font).cache().contains_key(#[trigger] s@[i]) && told_apart(
                *final(font),
                s@[i],
            ),
        !has_glyphs ==> exists|i: int|
            0 <= i < s@.len() && final(font).cache().contains_key(#[trigger] s@[i]) && !told_apart(
                *final(font),
                s@[i],
            ),
        s@.len() == 0 ==> has_glyphs && *final(font) == *old(font) && store_stays(
            *old(store),
            *final(store),
        ),
        final(font).replacement() == old(font).replacement(),
        final(font).replaces_with() == old(font).replaces_with(),
        old(font).cache().submap_of(final(font).cache()),
        forall|c: char| #[trigger] final(font).cache().contains_key(c) ==> old(
            font,
        ).cache().contains_key(c) || s@.contains(c),
{
    let after = *final(font);
    assert forall|c: char| #[trigger] after.displays(c) == told_apart(after, c) by {
        lemma_glyphs_differ(after.cache()[c].1, after.replacement().1);
    }
    crate::laws::law_has_glyphs_means_each(
        *old(font),
        *old(store),
        s@,
        has_glyphs,
        after,
        *final(store),
    );
    let asked = if has_glyphs {
        s@
    } else {
        let n = choose|n: int|
            {
                &&& 0 <= n < s@.len()
                &&& #[trigger] all_looked_up(
                    *old(font),
                    *old(store),
                    s@.take(n + 1),
                    after,
                    *final(store),
                )
                &&& forall|i: int| 0 <= i < n ==> after.displays(#[trigger] s@[i])
                &&& !after.displays(s@[n])
            };
        s@.take(n + 1)
    };
    law_all_looked_up(*old(font), *old(store), asked, after, *final(store));
    assert forall|c: char| #[trigger] after.cache().contains_key(c) implies old(
        font,
    ).cache().contains_key(c) || s@.contains(c) by {
        assert(after.cache().dom().contains(c));
        if asked.to_set().contains(c) {
            let i = choose|i: int| 0 <= i < asked.len() && asked[i] == c;
            assert(s@[i] == c);
        }
    }
}

/// The font remembers the first `n` characters, and not the one after them.
pub open spec fn remembers_up_to(font: Font, chars: Seq<char>, n: int) -> bool {
    &&& 0 <= n < chars.len()
    &&& forall|i: int| 0 <= i < n ==> font.cache().contains_key(#[trigger] chars[i])
    &&& !font.cache().contains_key(chars[n])
}

/// After the characters of a text have been looked up beforehand, the font remembers them
/// all, and otherwise what it remembered before, unchanged. If one of them cannot be shown,
/// it remembers those before it, and not that one.
pub proof fn law_preloaded_text<
    F: Fn(FontScale, Measure) -> Float32,
    R: Fn(&CosmicFont, u16, Float32) -> Option<GlyphImage>,
>(
    font: &mut Font,
    store: &mut FontStore<F, R>,
    s: &str,
    result: Result<(), GlyphError>,
)
    requires
        old(store).well_formed(),
        old(font).well_formed(*old(store)),
        call_ensures(Font::preload_characters::<F, R>, (font, store, s), result),
    ensures
        result is Ok ==> forall|c: char| #[trigger]
            final(font).cache().contains_key(c) <==> old(font).cache().contains_key(c)
                || s@.contains(c),
        result is Err ==> exists|n: int| #[trigger] remembers_up_to(*final(font), s@, n),
        result is Err ==> forall|c: char| #[trigger]
            final(font).cache().contains_key(c) ==> old(font).cache().contains_key(c)
                || s@.contains(c),
        old(font).cache().submap_of(final(font).cache()),
        final(font).fonts() == old(font).fonts(),
        final(font).replacement() == old(font).replacement(),
{
    lemma_preloaded(*old(font), *old(store), s@, result, *final(font), *final(store));
}

/// After the common characters have been looked up beforehand, the font remembers the
/// printable ASCII characters from the space to the tilde, the degree sign and the bullet,
/// and otherwise what it remembered before.
pub proof fn law_preloaded_common_characters<
    F: Fn(FontScale, Measure) -> Float32,
    R: Fn(&CosmicFont, u16, Float32) -> Option<GlyphImage>,
>(
    font: &mut Font,
    store: &mut FontStore<F, R>,
    result: Result<(), GlyphError>,
    c: char,
)
    requires
        old(store).well_formed(),
        old(font).well_formed(*old(store)),
        call_ensures(Font::preload_common_characters::<F, R>, (font, store), result),
    ensures
        result is Ok ==> {
            final(font).cache().contains_key(c) <==> {
                ||| old(font).cache().contains_key(c)
                ||| 0x20 <= c as u32 && c as u32 <= 0x7E
                ||| c as u32 == 0xB0
                ||| c as u32 == 0x2022
            }
        },
        final(font).cache().contains_key(c) ==> {
            ||| old(font).cache().contains_key(c)
            ||| 0x20 <= c as u32 && c as u32 <= 0x7E
            ||| c as u32 == 0xB0
            ||| c as u32 == 0x2022
        },
        old(font).cache().submap_of(final(font).cache()),
        final(font).fonts() == old(font).fonts(),
        final(font).replacement() == old(font).replacement(),
{
    let chars = common_characters();
    lemma_preloaded(*old(font), *old(store), chars, result, *final(font), *final(store));
    assert(chars[95] == '\u{B0}' && chars[96] == '\u{2022}');
    if 0x20 <= c as u32 && c as u32 <= 0x7E {
        assert(chars[c as u32 - 32] == c);
    }
    if chars.contains(c) {
        let i = choose|i: int| 0 <= i < chars.len() && chars[i] == c;
        assert(i < 95 ==> chars[i] == (32 + i) as char);
    }
}

/// What has been looked up beforehand is remembered.
proof fn lemma_preloaded<
    F: Fn(FontScale, Measure) -> Float32,
    R: Fn(&CosmicFont, u16, Float32) -> Option<GlyphImage>,
>(
    before: Font,
    before_store: FontStore<F, R>,
    chars: Seq<char>,
    result: Result<(), GlyphError>,
    after: Font,
    after_store: FontStore<F, R>,
)
    requires
        before_store.well_formed(),
        before.well_formed(before_store),
        crate::font::preloaded(before, before_store, chars, result, after, after_store),
    ensures
        result is Ok ==> forall|c: char| #[trigger]
            after.cache().contains_key(c) <==> before.cache().contains_key(c) || chars.contains(c),
        result is Err ==> exists|n: int| #[trigger] remembers_up_to(after, chars, n),
        forall|c: char| #[trigger]
            after.cache().contains_key(c) ==> before.cache().contains_key(c) || chars.contains(c),
        before.cache().submap_of(after.cache()),
        after.fonts() == before.fonts(),
        after.replacement() == before.replacement(),
{
    match result {
        Ok(_) => {
            law_all_looked_up(before, before_store, chars, after, after_store);
            assert forall|c: char| #[trigger] after.cache().contains_key(c)
                <==> before.cache().contains_key(c) || chars.contains(c) by {
                assert(after.cache().dom().contains(c) <==> before.cache().dom().union(
                    chars.to_set(),
                ).contains(c));
            }
        },
        Err(error) => {
            let n = choose|n: int| #[trigger]
                stopped_at(before, before_store, chars, n, error, after, after_store);
            let some = chars.take(n);
            let store = choose|store: FontStore<F, R>|
                {
                    &&& #[trigger] all_looked_up(before, before_store, some, after, store)
                    &&& store.well_formed()
                    &&& after.looked_up(store, chars[n], Err(error), after, after_store)
                };
            law_all_looked_up(before, before_store, some, after, store);
            assert forall|i: int| #![trigger chars[i]] 0 <= i < n implies after.cache().contains_key(
                chars[i],
            ) by {
                assert(some[i] == chars[i]);
                assert(some.to_set().contains(chars[i]));
                assert(after.cache().dom().contains(chars[i]));
            }
            assert(remembers_up_to(after, chars, n));
            assert forall|c: char| #[trigger] after.cache().contains_key(
                c,
            ) implies before.cache().contains_key(c) || chars.contains(c) by {
                assert(after.cache().dom().contains(c));
                if some.to_set().contains(c) {
                    let i = choose|i: int| 0 <= i < some.len() && some[i] == c;
                    assert(chars[i] == c);
                }
            }
        },
    }
}

/// The characters of a list of fonts are complete: every code point that the character map
/// of one of the fonts enumerates, however many it enumerates and wherever in the list the
/// font is, is among them, unless the font leaves it out.
pub proof fn law_characters_are_complete<
    'a,
    F: Fn(FontScale, Measure) -> Float32,
    R: Fn(&CosmicFont, u16, Float32) -> Option<GlyphImage>,
>(
    font: &'a mut Font,
    store: FontStore<F, R>,
    characters: &'a BTreeSet<u32>,
    i: int,
    k: int,
)
    requires
        store.well_formed(),
        old(font).well_formed(store),
        call_ensures(Font::characters::<F, R>, (font, &store), Some(characters)),
        0 <= i < old(font).fonts().len(),
        !charmap_truncated(
            font_data(face_at(*old(font), store, i).font()),
            font_directory(face_at(*old(font), store, i).font()),
        ),
        0 <= k < font_code_points(face_at(*old(font), store, i).font()).len(),
        !leaves_out(
            face_at(*old(font), store, i),
            font_code_points(face_at(*old(font), store, i).font())[k] as char,
        ),
    ensures
        characters@.contains(font_code_points(face_at(*old(font), store, i).font())[k]),
{
    let faces = old(font).faces(store);
    let face = face_at(*old(font), store, i);
    assert(faces[i] == face);
    assert(faces[i].lists_characters());
    let points = font_code_points(face.font());
    assert(crate::face::listed_code_points(face.font()) == points);
    assert(crate::character::is_scalar(crate::face::listed_code_points(face.font())[k]));
    let all = points.map_values(|cp: u32| cp as char);
    let keep = |c: char| !face.ignores(c);
    lemma_filter(all, keep);
    lemma_leaves_out(face, points[k] as char);
    assert(all[k] == points[k] as char);
    assert(keep(all[k]));
    assert(faces[i].listed().contains(points[k] as char));
}

/// The characters of a list of fonts are sound: each of them is enumerated by the character
/// map of a font of the list that does not leave it out.
pub proof fn law_characters_are_sound<
    'a,
    F: Fn(FontScale, Measure) -> Float32,
    R: Fn(&CosmicFont, u16, Float32) -> Option<GlyphImage>,
>(
    font: &'a mut Font,
    store: FontStore<F, R>,
    characters: &'a BTreeSet<u32>,
    number: u32,
)
    requires
        store.well_formed(),
        old(font).well_formed(store),
        call_ensures(Font::characters::<F, R>, (font, &store), Some(characters)),
        characters@.contains(number),
    ensures
        exists|i: int, k: int|
            {
                &&& 0 <= i < old(font).fonts().len()
                &&& 0 <= k < font_code_points(face_at(*old(font), store, i).font()).len()
                &&& #[trigger] font_code_points(face_at(*old(font), store, i).font())[k] == number
                &&& !leaves_out(face_at(*old(font), store, i), number as char)
            },
{
    let faces = old(font).faces(store);
    assert(all_listed(faces).contains(number));
    let i = choose|i: int|
        0 <= i < faces.len() && (#[trigger] faces[i]).listed().contains(number as char)
            && crate::character::is_scalar(number);
    let face = face_at(*old(font), store, i);
    assert(faces[i] == face);
    let points = crate::face::listed_code_points(face.font());
    let all = points.map_values(|cp: u32| cp as char);
    let keep = |c: char| !face.ignores(c);
    lemma_filter(all, keep);
    lemma_leaves_out(face, number as char);
    assert(all.filter(keep).contains(number as char));
    let k = choose|k: int| 0 <= k < all.len() && all[k] == number as char;
    assert(faces[i].lists_characters());
    assert(crate::character::is_scalar(points[k]));
    assert(points[k] as char == number as char);
    assert(points[k] == number);
    assert(font_code_points(face_at(*old(font), store, i).font())[k] == number);
}

/// The characters of a list of fonts can be had if the character map of each font can be
/// read and enumerates characters only. They change nothing else of the list, and are the
/// same when they are asked for again.
pub proof fn law_characters_can_be_had<
    'a,
    F: Fn(FontScale, Measure) -> Float32,
    R: Fn(&CosmicFont, u16, Float32) -> Option<GlyphImage>,
>(
    font: &'a mut Font,
    store: FontStore<F, R>,
    characters: Option<&'a BTreeSet<u32>>,
)
    requires
        store.well_formed(),
        old(font).well_formed(store),
        call_ensures(Font::characters::<F, R>, (font, &store), characters),
        forall|i: int|
            0 <= i < old(font).fonts().len() ==> !charmap_truncated(
                font_data((#[trigger] face_at(*old(font), store, i)).font()),
                font_directory(face_at(*old(font), store, i).font()),
            ),
    ensures
        characters is Some <==> forall|i: int|
            0 <= i < old(font).fonts().len() ==> {
                let face = (#[trigger] face_at(*old(font), store, i)).font();
                charmap_lists(font_data(face), font_directory(face)) && only_characters(face)
            },
        final(font).cache() == old(font).cache(),
        final(font).fonts() == old(font).fonts(),
        final(font).replacement() == old(font).replacement(),
        final(font).height() == old(font).height(),
        final(font).scale() == old(font).scale(),
        characters matches Some(set) ==> final(font).collected() == Some(set@),
        old(font).collected() matches Some(known) ==> {
            characters matches Some(set) && set@ == known
        },
{
    let faces = old(font).faces(store);
    assert forall|i: int| 0 <= i < old(font).fonts().len() implies {
        let face = (#[trigger] face_at(*old(font), store, i)).font();
        faces[i].lists_characters() == (charmap_lists(font_data(face), font_directory(face))
            && only_characters(face))
    } by {
        let face = face_at(*old(font), store, i).font();
        let points = font_code_points(face);
        assert(crate::face::listed_code_points(face) == points);
        assert(faces[i] == face_at(*old(font), store, i));
        if faces[i].lists_characters() {
            assert forall|k: int| 0 <= k < points.len() implies {
                let number = #[trigger] points[k];
                number < 0xD800 || (0xE000 <= number && number < 0x11_0000)
            } by {
                assert(crate::character::is_scalar(crate::face::listed_code_points(face)[k]));
            }
        }
    }
    if characters is Some {
        assert forall|i: int| 0 <= i < old(font).fonts().len() implies {
            let face = (#[trigger] face_at(*old(font), store, i)).font();
            charmap_lists(font_data(face), font_directory(face)) && only_characters(face)
        } by {
            assert(faces[i].lists_characters());
        }
    }
    if forall|i: int|
        0 <= i < old(font).fonts().len() ==> {
            let face = (#[trigger] face_at(*old(font), store, i)).font();
            charmap_lists(font_data(face), font_directory(face)) && only_characters(face)
        } {
        assert forall|i: int| 0 <= i < faces.len() implies (#[trigger] faces[i]).lists_characters() by {
            assert(faces[i] == face_at(*old(font), store, i));
        }
    }
}

/// Rectangles cover nothing if and only if their corners are in the same place.
pub proof fn law_nothing(rect: UvRect, nothing: bool)
    requires
        call_ensures(UvRect::is_nothing, (&rect,), nothing),
    ensures
        nothing <==> rect.min@[0] == rect.max@[0] && rect.min@[1] == rect.max@[1],
{
    assert(rect.min@ =~= rect.max@ <==> rect.min@[0] == rect.max@[0] && rect.min@[1]
        == rect.max@[1]);
}

/// Two numbers are equal if and only if both are numbers and their bits are the same, or
/// both are zero.
pub proof fn law_equal_numbers(x: Float32, y: Float32)
    ensures
        x.same_number(y) <==> !differ(x, y),
        differ(x, x) <==> x.bits % 0x8000_0000 > 0x7F80_0000,
        differ(x, y) <==> differ(y, x),
        !differ(Float32 { bits: 0 }, Float32 { bits: 0x8000_0000 }),
{
}

/// The number zero has no bits set, and the number one has those of the exponent 127.
pub proof fn law_zero_and_one(zero: Float32, one: Float32)
    requires
        call_ensures(Float32::zero, (), zero),
        call_ensures(Float32::one, (), one),
    ensures
        zero.bits == 0,
        one.bits == 127 * 0x80_0000,
{
}

/// Positive are all numbers above zero, and infinity: those without a sign.
pub proof fn law_positive_numbers(x: Float32)
    ensures
        x.is_positive() <==> x.bits != 0 && x.bits <= 0x7F80_0000,
{
}

/// By default a rectangle is zero throughout, and a glyph has no width besides.
pub proof fn law_default_glyph(rect: UvRect, info: GlyphInfo)
    requires
        call_ensures(<UvRect as Default>::default, (), rect),
        call_ensures(<GlyphInfo as Default>::default, (), info),
    ensures
        all_zero(rect),
        info.advance_width.bits == 0,
        all_zero(info.uv_rect),
{
}

/// A glyph is blank if and only if it has no width and a rectangle that is zero throughout.
pub proof fn law_blank_glyph(info: GlyphInfo)
    ensures
        info.is_blank() <==> info.advance_width.bits == 0 && all_zero(info.uv_rect),
{
    let rect = info.uv_rect;
    assert(rect.min@ =~= seq![0u16, 0u16] <==> rect.min@[0] == 0 && rect.min@[1] == 0);
    assert(rect.max@ =~= seq![0u16, 0u16] <==> rect.max@[0] == 0 && rect.max@[1] == 0);
}

} // verus!
