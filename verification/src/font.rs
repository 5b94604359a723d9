//! A font with its fallbacks.

use crate::cache;
use crate::cache::CharMap;
use crate::character::{is_scalar, number_of};
use crate::fallback::{
    all_in_use, all_list_characters, all_listed, faces_extend, first_at, from_first, is_replacement,
    law_faces_extend, pick, replacement_char, resolved, unsupported, FontIndex,
    FALLBACK_REPLACEMENT_CHAR, PRIMARY_REPLACEMENT_CHAR,
};
use crate::font_impl::FontImpl;
use crate::glyph::{GlyphError, GlyphImage, GlyphInfo, UvRect};
use crate::measure::{FontScale, Measure};
use crate::number::Float32;
use crate::store::{law_store_lookup, FontStore};
use cosmic_text::Font as CosmicFont;
use std::collections::BTreeSet;
use vstd::prelude::*;

verus! {

/// Shown in place of each character of a password: a bullet.
pub const PASSWORD_REPLACEMENT_CHAR: char = '\u{2022}';

/// Wrapper over multiple [`FontImpl`] (e.g. a primary + fallbacks for emojis)
pub struct Font {
    /// Numbers in a [`FontStore`].
    fonts: Vec<usize>,
    /// Lazily calculated.
    characters: Option<BTreeSet<u32>>,
    replacement_glyph: (FontIndex, GlyphInfo),
    /// The character that the replacement is the glyph of.
    replacement_char: Option<char>,
    pixels_per_point: Float32,
    row_height: Float32,
    glyph_info_cache: CharMap<(FontIndex, GlyphInfo)>,
}

impl Font {
    /// The fonts by their numbers in the store, the first of them first.
    pub closed spec fn fonts(self) -> Seq<usize> {
        self.fonts@
    }

    /// The glyphs that have been looked up before.
    pub closed spec fn cache(self) -> Map<char, (FontIndex, GlyphInfo)> {
        self.glyph_info_cache@
    }

    /// The glyph for characters that no font supports.
    pub closed spec fn replacement(self) -> (FontIndex, GlyphInfo) {
        self.replacement_glyph
    }

    /// The character that the replacement is the glyph of; none if no font has a glyph to
    /// show in place of others.
    pub closed spec fn replaces_with(self) -> Option<char> {
        self.replacement_char
    }

    /// Physical pixels in one point.
    pub closed spec fn scale(self) -> Float32 {
        self.pixels_per_point
    }

    /// Height of one row of text.
    pub closed spec fn height(self) -> Float32 {
        self.row_height
    }

    /// The code points of all supported characters, once they have been collected.
    pub closed spec fn collected(self) -> Option<Set<u32>> {
        match self.characters {
            Some(characters) => Some(characters@),
            None => None,
        }
    }

    /// The fonts of the list.
    pub open spec fn faces<
        F: Fn(FontScale, Measure) -> Float32,
        R: Fn(&CosmicFont, u16, Float32) -> Option<GlyphImage>,
    >(
        self,
        store: FontStore<F, R>,
    ) -> Seq<FontImpl> {
        pick(self.fonts(), store.fonts())
    }

    /// Is the glyph that was looked up for the character another one than the
    /// replacement?
    pub open spec fn shows(self, c: char) -> bool {
        let (i, info) = self.cache()[c];
        !(i == self.replacement().0 && info.same_glyph(self.replacement().1))
    }

    /// Can the character, which has been looked up, be displayed? It can if it has a glyph
    /// other than the replacement, and if it is the character that the replacement is the
    /// glyph of.
    pub open spec fn displays(self, c: char) -> bool {
        self.replaces_with() == Some(c) || self.shows(c)
    }

    /// What every operation keeps: every glyph that has been looked up is the right
    /// one, and so is the replacement.
    pub open spec fn well_formed<
        F: Fn(FontScale, Measure) -> Float32,
        R: Fn(&CosmicFont, u16, Float32) -> Option<GlyphImage>,
    >(
        self,
        store: FontStore<F, R>,
    ) -> bool {
        &&& all_in_use(self.fonts(), store.fonts())
        &&& is_replacement(self.faces(store), self.replacement())
        &&& self.replaces_with() == replacement_char(self.faces(store))
        &&& forall|c: char| #[trigger]
            self.cache().contains_key(c) ==> resolved(
                self.faces(store),
                self.replacement(),
                c,
                self.cache()[c],
            )
        &&& self.collected() matches Some(characters) ==> {
            &&& all_list_characters(self.faces(store))
            &&& characters == all_listed(self.faces(store))
        }
    }

    /// Everything but the glyphs that have been looked up is the same.
    pub open spec fn same_but_cache(self, other: Font) -> bool {
        &&& self.fonts() == other.fonts()
        &&& self.replacement() == other.replacement()
        &&& self.replaces_with() == other.replaces_with()
        &&& self.scale() == other.scale()
        &&& self.height() == other.height()
        &&& self.collected() == other.collected()
    }

    /// Everything but the characters that have been collected is the same.
    pub open spec fn same_but_collected(self, other: Font) -> bool {
        &&& self.fonts() == other.fonts()
        &&& self.replacement() == other.replacement()
        &&& self.replaces_with() == other.replaces_with()
        &&& self.scale() == other.scale()
        &&& self.height() == other.height()
        &&& self.cache() == other.cache()
    }

    /// What looking up a character in the fonts gives: the glyph of the first font
    /// that supports it, which is put into the cache; or, if that glyph cannot be
    /// drawn, an error, and nothing has changed.
    pub open spec fn found<
        F: Fn(FontScale, Measure) -> Float32,
        R: Fn(&CosmicFont, u16, Float32) -> Option<GlyphImage>,
    >(
        self,
        store: FontStore<F, R>,
        c: char,
        result: Result<Option<(FontIndex, GlyphInfo)>, GlyphError>,
        after: Font,
        after_store: FontStore<F, R>,
    ) -> bool {
        match result {
            Ok(Some(entry)) => {
                &&& first_at(self.faces(store), c, entry.0 as int)
                &&& store.looked_up(
                    self.fonts()[entry.0 as int],
                    c,
                    Ok(Some(entry.1)),
                    after_store,
                )
                &&& after.same_but_cache(self)
                &&& after.cache() == self.cache().insert(c, entry)
            },
            Ok(None) => {
                &&& unsupported(self.faces(store), c)
                &&& after == self
                &&& after_store.unchanged(store)
            },
            Err(error) => {
                &&& exists|i: int|
                    {
                        &&& #[trigger] first_at(self.faces(store), c, i)
                        &&& store.looked_up(self.fonts()[i], c, Err(error), after_store)
                    }
                &&& after == self
                &&& after_store.unchanged(store)
            },
        }
    }

    /// What looking up a character gives, and what it does to the caches and to the
    /// texture.
    pub open spec fn looked_up<
        F: Fn(FontScale, Measure) -> Float32,
        R: Fn(&CosmicFont, u16, Float32) -> Option<GlyphImage>,
    >(
        self,
        store: FontStore<F, R>,
        c: char,
        result: Result<(FontIndex, GlyphInfo), GlyphError>,
        after: Font,
        after_store: FontStore<F, R>,
    ) -> bool {
        if self.cache().contains_key(c) {
            &&& result == Ok::<_, GlyphError>(self.cache()[c])
            &&& after == self
            &&& after_store.unchanged(store)
        } else if unsupported(self.faces(store), c) {
            &&& result == Ok::<_, GlyphError>(self.replacement())
            &&& after.same_but_cache(self)
            &&& after.cache() == self.cache().insert(c, self.replacement())
            &&& after_store.unchanged(store)
        } else {
            match result {
                Ok(entry) => self.found(store, c, Ok(Some(entry)), after, after_store),
                Err(error) => self.found(store, c, Err(error), after, after_store),
            }
        }
    }
}

/// Looking up the character in the first of the fonts with these numbers that supports it
/// has given an error.
pub open spec fn first_refused<
    F: Fn(FontScale, Measure) -> Float32,
    R: Fn(&CosmicFont, u16, Float32) -> Option<GlyphImage>,
>(
    ids: Seq<usize>,
    store: FontStore<F, R>,
    c: char,
    error: GlyphError,
    after_store: FontStore<F, R>,
) -> bool {
    exists|i: int|
        {
            &&& #[trigger] first_at(pick(ids, store.fonts()), c, i)
            &&& store.looked_up(ids[i], c, Err(error), after_store)
        }
}

/// The characters have been looked up one after the other, and all of them have been
/// found or replaced.
pub open spec fn all_looked_up<
    F: Fn(FontScale, Measure) -> Float32,
    R: Fn(&CosmicFont, u16, Float32) -> Option<GlyphImage>,
>(
    before: Font,
    before_store: FontStore<F, R>,
    chars: Seq<char>,
    after: Font,
    after_store: FontStore<F, R>,
) -> bool
    decreases chars.len(),
{
    if chars.len() == 0 {
        after == before && after_store.unchanged(before_store)
    } else {
        exists|font: Font, store: FontStore<F, R>, entry: (FontIndex, GlyphInfo)|
            {
                &&& all_looked_up(before, before_store, chars.drop_last(), font, store)
                &&& store.well_formed()
                &&& #[trigger] font.looked_up(store, chars.last(), Ok(entry), after, after_store)
            }
    }
}

/// The characters have been looked up one after the other, up to the first that
/// cannot be shown.
pub open spec fn preloaded<
    F: Fn(FontScale, Measure) -> Float32,
    R: Fn(&CosmicFont, u16, Float32) -> Option<GlyphImage>,
>(
    before: Font,
    before_store: FontStore<F, R>,
    chars: Seq<char>,
    result: Result<(), GlyphError>,
    after: Font,
    after_store: FontStore<F, R>,
) -> bool {
    match result {
        Ok(_) => all_looked_up(before, before_store, chars, after, after_store),
        Err(error) => exists|n: int| #[trigger]
            stopped_at(before, before_store, chars, n, error, after, after_store),
    }
}

/// The first `n` characters have been looked up one after the other, and the next one
/// cannot be shown.
pub open spec fn stopped_at<
    F: Fn(FontScale, Measure) -> Float32,
    R: Fn(&CosmicFont, u16, Float32) -> Option<GlyphImage>,
>(
    before: Font,
    before_store: FontStore<F, R>,
    chars: Seq<char>,
    n: int,
    error: GlyphError,
    after: Font,
    after_store: FontStore<F, R>,
) -> bool {
    &&& 0 <= n < chars.len()
    &&& exists|store: FontStore<F, R>|
        {
            &&& #[trigger] all_looked_up(before, before_store, chars.take(n), after, store)
            &&& store.well_formed()
            &&& after.looked_up(store, chars[n], Err(error), after, after_store)
        }
}

/// The characters have been looked up one after the other, up to the first that cannot
/// be displayed, or for which there is an error.
pub open spec fn all_asked<
    F: Fn(FontScale, Measure) -> Float32,
    R: Fn(&CosmicFont, u16, Float32) -> Option<GlyphImage>,
>(
    before: Font,
    before_store: FontStore<F, R>,
    chars: Seq<char>,
    result: Result<bool, GlyphError>,
    after: Font,
    after_store: FontStore<F, R>,
) -> bool {
    match result {
        Ok(true) => {
            &&& all_looked_up(before, before_store, chars, after, after_store)
            &&& forall|i: int| 0 <= i < chars.len() ==> after.displays(#[trigger] chars[i])
        },
        Ok(false) => exists|n: int|
            {
                &&& 0 <= n < chars.len()
                &&& #[trigger] all_looked_up(
                    before,
                    before_store,
                    chars.take(n + 1),
                    after,
                    after_store,
                )
                &&& forall|i: int| 0 <= i < n ==> after.displays(#[trigger] chars[i])
                &&& !after.displays(chars[n])
            },
        Err(error) => exists|n: int|
            {
                &&& #[trigger] stopped_at(before, before_store, chars, n, error, after, after_store)
                &&& forall|i: int| 0 <= i < n ==> after.displays(#[trigger] chars[i])
            },
    }
}

/// The printable ASCII characters, the degree sign, and what is shown for a password.
pub open spec fn common_characters() -> Seq<char> {
    Seq::new(95, |i: int| (32 + i) as char).push('\u{B0}').push(PASSWORD_REPLACEMENT_CHAR)
}

/// What is right of a font stays right when more glyphs are looked up, in this font
/// or in another, and when fonts are added to the store.
pub proof fn law_store_extends<
    F: Fn(FontScale, Measure) -> Float32,
    R: Fn(&CosmicFont, u16, Float32) -> Option<GlyphImage>,
>(
    font: Font,
    before: FontStore<F, R>,
    after: FontStore<F, R>,
)
    requires
        all_in_use(font.fonts(), before.fonts()),
        after.extends(before),
    ensures
        all_in_use(font.fonts(), after.fonts()),
        faces_extend(font.faces(before), font.faces(after)),
        font.well_formed(before) ==> font.well_formed(after),
{
    assert forall|i: int| 0 <= i < font.fonts().len() implies (#[trigger] font.faces(
        after,
    )[i]).extends(font.faces(before)[i]) by {
        assert(font.fonts()[i] < before.fonts().len());
        assert(after.fonts()[font.fonts()[i] as int].extends(
            before.fonts()[font.fonts()[i] as int],
        ));
    }
    law_faces_extend(font.faces(before), font.faces(after));
}

/// Looking up a character keeps what is right of a font, and the font that shows the
/// character has it in its cache.
pub proof fn law_found<
    F: Fn(FontScale, Measure) -> Float32,
    R: Fn(&CosmicFont, u16, Float32) -> Option<GlyphImage>,
>(
    before: Font,
    before_store: FontStore<F, R>,
    c: char,
    result: Result<Option<(FontIndex, GlyphInfo)>, GlyphError>,
    after: Font,
    after_store: FontStore<F, R>,
)
    requires
        all_in_use(before.fonts(), before_store.fonts()),
        before_store.well_formed(),
        before.found(before_store, c, result, after, after_store),
    ensures
        after_store.extends(before_store),
        faces_extend(before.faces(before_store), before.faces(after_store)),
        all_in_use(after.fonts(), after_store.fonts()),
        result matches Ok(Some(entry)) ==> from_first(before.faces(after_store), c, entry),
        before.well_formed(before_store) ==> after.well_formed(after_store),
{
    if let Ok(Some(entry)) = result {
        let id = before.fonts()[entry.0 as int];
        law_store_lookup(before_store, id, c, Ok(Some(entry.1)), after_store);
        law_store_extends(before, before_store, after_store);
        let faces = before.faces(after_store);
        law_faces_extend(before.faces(before_store), faces);
        assert(first_at(faces, c, entry.0 as int));
        assert(!unsupported(faces, c));
        if before.well_formed(before_store) {
            assert forall|d: char| #[trigger] after.cache().contains_key(d) implies resolved(
                faces,
                after.replacement(),
                d,
                after.cache()[d],
            ) by {
                if d != c {
                    assert(before.cache().contains_key(d));
                }
            }
        }
    } else {
        law_store_extends(before, before_store, after_store);
    }
}

/// Looking up a character keeps what is right of a font. Nothing that was in its
/// cache is lost or changed, and afterwards the character is there.
pub proof fn law_font_lookup<
    F: Fn(FontScale, Measure) -> Float32,
    R: Fn(&CosmicFont, u16, Float32) -> Option<GlyphImage>,
>(
    before: Font,
    before_store: FontStore<F, R>,
    c: char,
    result: Result<(FontIndex, GlyphInfo), GlyphError>,
    after: Font,
    after_store: FontStore<F, R>,
)
    requires
        before_store.well_formed(),
        before.well_formed(before_store),
        before.looked_up(before_store, c, result, after, after_store),
    ensures
        after.well_formed(after_store),
        after.same_but_cache(before),
        before.cache().submap_of(after.cache()),
        result matches Ok(entry) ==> {
            &&& after.cache().contains_key(c)
            &&& after.cache()[c] == entry
            &&& after.cache().dom() == before.cache().dom().insert(c)
        },
        after_store.extends(before_store),
        faces_extend(before.faces(before_store), after.faces(after_store)),
{
    if before.cache().contains_key(c) {
        law_store_extends(before, before_store, after_store);
        assert(after.cache().dom() =~= before.cache().dom().insert(c));
    } else if unsupported(before.faces(before_store), c) {
        law_store_extends(before, before_store, after_store);
        assert forall|d: char| #[trigger] after.cache().contains_key(d) implies resolved(
            after.faces(after_store),
            after.replacement(),
            d,
            after.cache()[d],
        ) by {
            if d != c {
                assert(before.cache().contains_key(d));
            }
        }
    } else {
        let found = match result {
            Ok(entry) => Ok(Some(entry)),
            Err(error) => Err(error),
        };
        law_found(before, before_store, c, found, after, after_store);
    }
}

/// Looking up several characters keeps what is right of a font. Nothing that was in
/// its cache is lost or changed; the characters are added to it, and no others.
pub proof fn law_all_looked_up<
    F: Fn(FontScale, Measure) -> Float32,
    R: Fn(&CosmicFont, u16, Float32) -> Option<GlyphImage>,
>(
    before: Font,
    before_store: FontStore<F, R>,
    chars: Seq<char>,
    after: Font,
    after_store: FontStore<F, R>,
)
    requires
        before_store.well_formed(),
        before.well_formed(before_store),
        all_looked_up(before, before_store, chars, after, after_store),
    ensures
        after.well_formed(after_store),
        after.same_but_cache(before),
        before.cache().submap_of(after.cache()),
        after.cache().dom() == before.cache().dom().union(chars.to_set()),
        after_store.extends(before_store),
        faces_extend(before.faces(before_store), after.faces(after_store)),
    decreases chars.len(),
{
    if chars.len() == 0 {
        law_store_extends(before, before_store, after_store);
        assert(chars.to_set() =~= Set::empty());
        assert(after.cache().dom() =~= before.cache().dom().union(chars.to_set()));
    } else {
        let (font, store, entry) = choose|
            font: Font,
            store: FontStore<F, R>,
            entry: (FontIndex, GlyphInfo),
        |
            {
                &&& all_looked_up(before, before_store, chars.drop_last(), font, store)
                &&& store.well_formed()
                &&& #[trigger] font.looked_up(store, chars.last(), Ok(entry), after, after_store)
            };
        law_all_looked_up(before, before_store, chars.drop_last(), font, store);
        law_font_lookup(font, store, chars.last(), Ok(entry), after, after_store);
        lemma_extends_twice(before_store, store, after_store);
        law_store_extends(before, before_store, after_store);
        assert(chars =~= chars.drop_last().push(chars.last()));
        assert forall|c: char| #[trigger] chars.to_set().contains(c) == chars.drop_last().to_set().insert(
            chars.last(),
        ).contains(c) by {
            if chars.contains(c) {
                let i = choose|i: int| 0 <= i < chars.len() && chars[i] == c;
                if i < chars.len() - 1 {
                    assert(chars.drop_last()[i] == c);
                }
            }
            if chars.drop_last().contains(c) {
                let i = choose|i: int| 0 <= i < chars.len() - 1 && chars.drop_last()[i] == c;
                assert(chars[i] == c);
            }
            assert(chars[chars.len() - 1] == chars.last());
        }
        assert(after.cache().dom() =~= before.cache().dom().union(chars.to_set()));
    }
}

/// One more character has been looked up.
proof fn lemma_one_more<
    F: Fn(FontScale, Measure) -> Float32,
    R: Fn(&CosmicFont, u16, Float32) -> Option<GlyphImage>,
>(
    before: Font,
    before_store: FontStore<F, R>,
    chars: Seq<char>,
    font: Font,
    store: FontStore<F, R>,
    c: char,
    entry: (FontIndex, GlyphInfo),
    after: Font,
    after_store: FontStore<F, R>,
)
    requires
        store.well_formed(),
        all_looked_up(before, before_store, chars, font, store),
        font.looked_up(store, c, Ok(entry), after, after_store),
    ensures
        all_looked_up(before, before_store, chars.push(c), after, after_store),
{
    assert(chars.push(c).drop_last() =~= chars);
    assert(chars.push(c).last() == c);
}

/// Looking up more glyphs twice is looking up more glyphs.
proof fn lemma_extends_twice<
    F: Fn(FontScale, Measure) -> Float32,
    R: Fn(&CosmicFont, u16, Float32) -> Option<GlyphImage>,
>(
    first: FontStore<F, R>,
    second: FontStore<F, R>,
    third: FontStore<F, R>,
)
    requires
        second.extends(first),
        third.extends(second),
    ensures
        third.extends(first),
{
    assert forall|i: int| 0 <= i < first.fonts().len() implies (#[trigger] third.fonts()[i]).extends(
        first.fonts()[i],
    ) by {
        let (a, b, c) = (first.fonts()[i], second.fonts()[i], third.fonts()[i]);
        assert(b.extends(a) && c.extends(b));
        assert forall|d: char| #[trigger] a.cache().contains_key(d) implies c.cache().contains_key(d)
            && c.cache()[d] == a.cache()[d] by {
            assert(b.cache().contains_key(d));
        }
    }
}

impl Font {
    /// A font made of the fonts with these numbers: the first is the primary one, and
    /// the others are its fallbacks.
    pub fn new<
        F: Fn(FontScale, Measure) -> Float32,
        R: Fn(&CosmicFont, u16, Float32) -> Option<GlyphImage>,
    >(
        store: &mut FontStore<F, R>,
        fonts: Vec<usize>,
    ) -> (result: Result<Font, GlyphError>)
        requires
            old(store).well_formed(),
            all_in_use(fonts@, old(store).fonts()),
        ensures
            final(store).well_formed(),
            result matches Ok(font) ==> {
                &&& font.well_formed(*final(store))
                &&& font.fonts() == fonts@
                &&& font.collected() is None
                &&& if fonts@.len() == 0 {
                    &&& font.scale() == (Float32 { bits: 0x3F80_0000 })
                    &&& font.height() == (Float32 { bits: 0 })
                } else {
                    &&& font.scale() == old(store).fonts()[fonts@[0] as int].scale().pixels_per_point
                    &&& font.height() == old(store).fonts()[fonts@[0] as int].scale().height_in_points
                }
            },
            match replacement_char(pick(fonts@, old(store).fonts())) {
                None => {
                    &&& result matches Ok(font) && font.replacement().0 == 0
                        && font.replacement().1.is_blank() && font.cache() == Map::<
                        char,
                        (FontIndex, GlyphInfo),
                    >::empty()
                    &&& final(store).unchanged(*old(store))
                },
                Some(c) => match result {
                    Ok(font) => {
                        let (i, info) = font.replacement();
                        &&& first_at(pick(fonts@, old(store).fonts()), c, i as int)
                        &&& old(store).looked_up(
                            fonts@[i as int],
                            c,
                            Ok(Some(info)),
                            *final(store),
                        )
                        &&& font.cache() == Map::<char, (FontIndex, GlyphInfo)>::empty().insert(
                            c,
                            (i, info),
                        )
                    },
                    Err(error) => {
                        &&& first_refused(fonts@, *old(store), c, error, *final(store))
                        &&& final(store).unchanged(*old(store))
                    },
                },
            },
    {
        if fonts.len() == 0 {
            return Ok(
                Font {
                    fonts,
                    characters: None,
                    replacement_glyph: (0, GlyphInfo::default()),
                    replacement_char: None,
                    pixels_per_point: Float32::one(),
                    row_height: Float32::zero(),
                    glyph_info_cache: CharMap::default(),
                },
            );
        }
        assert(fonts@[0] < store.fonts().len());
        let pixels_per_point = store.font(fonts[0]).pixels_per_point();
        let row_height = store.font(fonts[0]).row_height();
        let mut slf = Font {
            fonts,
            characters: None,
            replacement_glyph: (0, GlyphInfo::default()),
            replacement_char: None,
            pixels_per_point,
            row_height,
            glyph_info_cache: CharMap::default(),
        };
        let ghost empty = slf;
        let ghost faces = slf.faces(*store);
        let ghost first_store = *store;
        let primary = slf.glyph_info_no_cache_or_fallback(store, PRIMARY_REPLACEMENT_CHAR);
        proof {
            law_found(empty, first_store, PRIMARY_REPLACEMENT_CHAR, primary, slf, *store);
            law_faces_extend(faces, slf.faces(*store));
        }
        if let Some(replacement_glyph) = primary? {
            assert(faces[replacement_glyph.0 as int].supports(PRIMARY_REPLACEMENT_CHAR));
            slf.replacement_glyph = replacement_glyph;
            slf.replacement_char = Some(PRIMARY_REPLACEMENT_CHAR);
            return Ok(slf);
        }
        let ghost second_store = *store;
        let fallback = slf.glyph_info_no_cache_or_fallback(store, FALLBACK_REPLACEMENT_CHAR);
        proof {
            law_found(empty, second_store, FALLBACK_REPLACEMENT_CHAR, fallback, slf, *store);
            law_faces_extend(faces, slf.faces(*store));
        }
        if let Some(replacement_glyph) = fallback? {
            assert(faces[replacement_glyph.0 as int].supports(FALLBACK_REPLACEMENT_CHAR));
            slf.replacement_glyph = replacement_glyph;
            slf.replacement_char = Some(FALLBACK_REPLACEMENT_CHAR);
        }
        Ok(slf)
    }

    /// Looks up a character in one font after the other.
    pub fn glyph_info_no_cache_or_fallback<
        F: Fn(FontScale, Measure) -> Float32,
        R: Fn(&CosmicFont, u16, Float32) -> Option<GlyphImage>,
    >(
        &mut self,
        store: &mut FontStore<F, R>,
        c: char,
    ) -> (result: Result<Option<(FontIndex, GlyphInfo)>, GlyphError>)
        requires
            old(store).well_formed(),
            all_in_use(old(self).fonts(), old(store).fonts()),
        ensures
            final(store).well_formed(),
            old(self).found(*old(store), c, result, *final(self), *final(store)),
    {
        let ghost before = *self;
        let ghost before_store = *store;
        let ghost faces = self.faces(*store);
        let mut font_index: usize = 0;
        while font_index < self.fonts.len()
            invariant
                *self == before,
                before == *old(self),
                before_store == *old(store),
                all_in_use(before.fonts(), before_store.fonts()),
                faces == before.faces(before_store),
                store.well_formed(),
                store.unchanged(before_store),
                font_index <= self.fonts@.len(),
                forall|j: int| 0 <= j < font_index ==> !(#[trigger] faces[j]).supports(c),
            decreases self.fonts@.len() - font_index,
        {
            let ghost prior = *store;
            assert(self.fonts()[font_index as int] < store.fonts().len());
            let result = store.glyph_info(self.fonts[font_index], c);
            proof {
                law_store_lookup(prior, self.fonts[font_index as int], c, result, *store);
                assert(faces[font_index as int] == prior.fonts()[self.fonts[font_index as int] as int]);
                assert(before_store.looked_up(self.fonts()[font_index as int], c, result, *store));
            }
            match result {
                Ok(Some(glyph_info)) => {
                    cache::store(&mut self.glyph_info_cache, c, (font_index, glyph_info));
                    return Ok(Some((font_index, glyph_info)));
                },
                Ok(None) => {},
                Err(error) => {
                    assert(first_at(faces, c, font_index as int));
                    return Err(error);
                },
            }
            font_index = font_index + 1;
        }
        Ok(None)
    }

    /// `\n` will (intentionally) show up as the replacement character.
    pub fn glyph_info<
        F: Fn(FontScale, Measure) -> Float32,
        R: Fn(&CosmicFont, u16, Float32) -> Option<GlyphImage>,
    >(
        &mut self,
        store: &mut FontStore<F, R>,
        c: char,
    ) -> (result: Result<(FontIndex, GlyphInfo), GlyphError>)
        requires
            old(store).well_formed(),
            old(self).well_formed(*old(store)),
        ensures
            final(store).well_formed(),
            final(self).well_formed(*final(store)),
            old(self).looked_up(*old(store), c, result, *final(self), *final(store)),
    {
        if let Some(font_index_glyph_info) = cache::lookup(&self.glyph_info_cache, c) {
            return Ok(font_index_glyph_info);
        }
        let ghost before = *self;
        let ghost before_store = *store;
        let result = self.glyph_info_no_cache_or_fallback(store, c);
        proof {
            law_found(before, before_store, c, result, *self, *store);
        }
        match result? {
            Some(font_index_glyph_info) => Ok(font_index_glyph_info),
            None => {
                let font_index_glyph_info = self.replacement_glyph;
                cache::store(&mut self.glyph_info_cache, c, font_index_glyph_info);
                proof {
                    assert forall|d: char| #[trigger]
                        self.cache().contains_key(d) implies resolved(
                        self.faces(*store),
                        self.replacement(),
                        d,
                        self.cache()[d],
                    ) by {
                        if d != c {
                            assert(before.cache().contains_key(d));
                        }
                    }
                }
                Ok(font_index_glyph_info)
            },
        }
    }
}

impl Font {
    /// Looks up the characters of a text.
    pub fn preload_characters<
        F: Fn(FontScale, Measure) -> Float32,
        R: Fn(&CosmicFont, u16, Float32) -> Option<GlyphImage>,
    >(
        &mut self,
        store: &mut FontStore<F, R>,
        s: &str,
    ) -> (result: Result<(), GlyphError>)
        requires
            old(store).well_formed(),
            old(self).well_formed(*old(store)),
        ensures
            final(store).well_formed(),
            final(self).well_formed(*final(store)),
            preloaded(*old(self), *old(store), s@, result, *final(self), *final(store)),
    {
        let ghost before = *self;
        let ghost before_store = *store;
        assert(s@.take(0) =~= Seq::<char>::empty());
        for c in it: s.chars()
            invariant
                before == *old(self),
                before_store == *old(store),
                store.well_formed(),
                self.well_formed(*store),
                it.seq() == s@,
                all_looked_up(before, before_store, s@.take(it.index() as int), *self, *store),
        {
            let ghost font = *self;
            let ghost prior = *store;
            let result = self.glyph_info(store, c);
            match result {
                Ok(entry) => {
                    proof {
                        let n = it.index() as int;
                        lemma_one_more(
                            before,
                            before_store,
                            s@.take(n),
                            font,
                            prior,
                            c,
                            entry,
                            *self,
                            *store,
                        );
                        assert(s@.take(n).push(c) =~= s@.take(n + 1));
                    }
                },
                Err(error) => {
                    proof {
                        let n = it.index() as int;
                        assert(stopped_at(before, before_store, s@, n, error, *self, *store));
                    }
                    return Err(error);
                },
            }
        }
        assert(s@.take(s@.len() as int) =~= s@);
        Ok(())
    }

    /// Looks up the printable ASCII characters (which excludes control codes), the
    /// degree sign, and what is shown for a password.
    pub fn preload_common_characters<
        F: Fn(FontScale, Measure) -> Float32,
        R: Fn(&CosmicFont, u16, Float32) -> Option<GlyphImage>,
    >(
        &mut self,
        store: &mut FontStore<F, R>,
    ) -> (result: Result<(), GlyphError>)
        requires
            old(store).well_formed(),
            old(self).well_formed(*old(store)),
        ensures
            final(store).well_formed(),
            final(self).well_formed(*final(store)),
            preloaded(
                *old(self),
                *old(store),
                common_characters(),
                result,
                *final(self),
                *final(store),
            ),
    {
        let ghost chars = common_characters();
        assert(chars.take(0) =~= Seq::<char>::empty());
        let mut ascii: u8 = 32;  // space
        while ascii <= 126
            invariant
                32 <= ascii <= 127,
                chars == common_characters(),
                store.well_formed(),
                self.well_formed(*store),
                all_looked_up(*old(self), *old(store), chars.take(ascii - 32), *self, *store),
            decreases 127 - ascii,
        {
            let ghost font = *self;
            let ghost prior = *store;
            let c = ascii as char;
            assert(chars[ascii - 32] == c);
            match self.glyph_info(store, c) {
                Ok(entry) => {
                    proof {
                        let n = ascii - 32;
                        lemma_one_more(
                            *old(self),
                            *old(store),
                            chars.take(n),
                            font,
                            prior,
                            c,
                            entry,
                            *self,
                            *store,
                        );
                        assert(chars.take(n).push(c) =~= chars.take(n + 1));
                    }
                },
                Err(error) => {
                    assert(stopped_at(
                        *old(self),
                        *old(store),
                        chars,
                        ascii - 32,
                        error,
                        *self,
                        *store,
                    ));
                    return Err(error);
                },
            }
            ascii = ascii + 1;
        }
        let ghost font = *self;
        let ghost prior = *store;
        match self.glyph_info(store, '\u{B0}') {
            Ok(entry) => {
                proof {
                    lemma_one_more(
                        *old(self),
                        *old(store),
                        chars.take(95),
                        font,
                        prior,
                        '\u{B0}',
                        entry,
                        *self,
                        *store,
                    );
                    assert(chars.take(95).push('\u{B0}') =~= chars.take(96));
                }
            },
            Err(error) => {
                assert(chars[95] == '\u{B0}');
                assert(stopped_at(*old(self), *old(store), chars, 95, error, *self, *store));
                return Err(error);
            },
        }
        let ghost font = *self;
        let ghost prior = *store;
        match self.glyph_info(store, PASSWORD_REPLACEMENT_CHAR) {
            Ok(entry) => {
                proof {
                    lemma_one_more(
                        *old(self),
                        *old(store),
                        chars.take(96),
                        font,
                        prior,
                        PASSWORD_REPLACEMENT_CHAR,
                        entry,
                        *self,
                        *store,
                    );
                    assert(chars.take(96).push(PASSWORD_REPLACEMENT_CHAR) =~= chars.take(97));
                }
            },
            Err(error) => {
                assert(chars[96] == PASSWORD_REPLACEMENT_CHAR);
                assert(stopped_at(*old(self), *old(store), chars, 96, error, *self, *store));
                return Err(error);
            },
        }
        assert(chars.take(97) =~= chars);
        Ok(())
    }

    /// The code points of all supported characters: of those that the fonts list and do
    /// not ignore. `None` if a font lists something that is no character, or cannot be listed.
    pub fn characters<
        F: Fn(FontScale, Measure) -> Float32,
        R: Fn(&CosmicFont, u16, Float32) -> Option<GlyphImage>,
    >(
        &mut self,
        store: &FontStore<F, R>,
    ) -> (characters: Option<&BTreeSet<u32>>)
        requires
            store.well_formed(),
            old(self).well_formed(*store),
        ensures
            final(self).well_formed(*store),
            final(self).same_but_collected(*old(self)),
            characters is Some <==> all_list_characters(old(self).faces(*store)),
            characters matches Some(set) ==> set@ == all_listed(old(self).faces(*store)),
            final(self).collected() == (match characters {
                Some(set) => Some(set@),
                None => None,
            }),
    {
        if self.characters.is_none() {
            let ghost faces = self.faces(*store);
            let mut characters: BTreeSet<u32> = BTreeSet::new();
            let mut i: usize = 0;
            while i < self.fonts.len()
                invariant
                    *self == *old(self),
                    store.well_formed(),
                    self.well_formed(*store),
                    faces == self.faces(*store),
                    i <= faces.len(),
                    faces.len() == self.fonts@.len(),
                    all_list_characters(faces.take(i as int)),
                    characters@ == all_listed(faces.take(i as int)),
                decreases faces.len() - i,
            {
                assert(self.fonts()[i as int] < store.fonts().len());
                assert(faces[i as int] == store.fonts()[self.fonts[i as int] as int]);
                match store.font(self.fonts[i]).characters() {
                    Some(chars) => {
                        let ghost some = faces.take(i as int);
                        let ghost more = faces.take(i + 1);
                        Font::collect(&mut characters, &chars);
                        proof {
                            assert(more =~= some.push(faces[i as int]));
                            assert forall|cp: u32| #[trigger]
                                characters@.contains(cp) <==> all_listed(more).contains(cp) by {
                                if all_listed(some).contains(cp) {
                                    let j = choose|j: int|
                                        0 <= j < some.len() && (#[trigger] some[j]).listed().contains(
                                            cp as char,
                                        );
                                    assert(more[j].listed().contains(cp as char));
                                }
                                if all_listed(more).contains(cp) {
                                    let j = choose|j: int|
                                        0 <= j < more.len() && (#[trigger] more[j]).listed().contains(
                                            cp as char,
                                        );
                                    if j < i {
                                        assert(some[j].listed().contains(cp as char));
                                    }
                                }
                                assert(more[i as int] == faces[i as int]);
                            }
                            assert(characters@ =~= all_listed(more));
                            assert forall|j: int| 0 <= j < more.len() implies (#[trigger] more[j]).lists_characters() by {
                                if j < i {
                                    assert(some[j].lists_characters());
                                }
                            }
                        }
                    },
                    None => {
                        return None;
                    },
                }
                i = i + 1;
            }
            assert(faces.take(i as int) =~= faces);
            self.characters = Some(characters);
            assert(self.cache() == old(self).cache());
            assert(self.faces(*store) == faces);
        }
        self.characters.as_ref()
    }

    /// Adds the code points of some characters to a set.
    fn collect(characters: &mut BTreeSet<u32>, chars: &Vec<char>)
        ensures
            forall|cp: u32| #[trigger]
                final(characters)@.contains(cp) <==> old(characters)@.contains(cp) || (is_scalar(cp)
                    && chars@.contains(cp as char)),
    {
        let ghost before = characters@;
        let mut k: usize = 0;
        while k < chars.len()
            invariant
                k <= chars@.len(),
                before == old(characters)@,
                forall|cp: u32| #[trigger]
                    characters@.contains(cp) <==> before.contains(cp) || (is_scalar(cp)
                        && chars@.take(k as int).contains(cp as char)),
            decreases chars@.len() - k,
        {
            let chr = chars[k];
            let number: u32 = number_of(chr);
            let ghost prior = characters@;
            characters.insert(number);
            proof {
                let some = chars@.take(k as int);
                let more = chars@.take(k + 1);
                assert(more =~= some.push(chr));
                assert forall|cp: u32| #[trigger]
                    characters@.contains(cp) <==> before.contains(cp) || (is_scalar(cp)
                        && more.contains(cp as char)) by {
                    assert(characters@.contains(cp) <==> prior.contains(cp) || cp == number);
                    if is_scalar(cp) && more.contains(cp as char) && cp != number {
                        let j = choose|j: int| 0 <= j < more.len() && more[j] == cp as char;
                        assert(some[j] == cp as char);
                    }
                    if some.contains(cp as char) {
                        let j = choose|j: int| 0 <= j < some.len() && some[j] == cp as char;
                        assert(more[j] == cp as char);
                    }
                    assert(more[k as int] == chr);
                }
            }
            k = k + 1;
        }
        assert(chars@.take(k as int) =~= chars@);
    }

    /// Height of one row of text. In points
    pub fn row_height(&self) -> (height: Float32)
        ensures
            height == self.height(),
    {
        self.row_height
    }

    /// Physical pixels in one point.
    pub fn pixels_per_point(&self) -> (pixels_per_point: Float32)
        ensures
            pixels_per_point == self.scale(),
    {
        self.pixels_per_point
    }

    /// The character whose glyph is shown in place of characters that no font supports;
    /// none if such characters are not shown at all.
    pub fn replacement_character(&self) -> (replacement: Option<char>)
        ensures
            replacement == self.replaces_with(),
    {
        self.replacement_char
    }

    /// Where the glyph of a character lies in the texture; nothing if the character has
    /// not been looked up.
    pub fn uv_rect(&self, c: char) -> (rect: UvRect)
        ensures
            self.cache().contains_key(c) ==> rect == self.cache()[c].1.uv_rect,
            !self.cache().contains_key(c) ==> rect.is_blank(),
    {
        match cache::lookup(&self.glyph_info_cache, c) {
            Some(gi) => gi.1.uv_rect,
            None => UvRect::default(),
        }
    }

    /// Width of this character in points.
    pub fn glyph_width<
        F: Fn(FontScale, Measure) -> Float32,
        R: Fn(&CosmicFont, u16, Float32) -> Option<GlyphImage>,
    >(
        &mut self,
        store: &mut FontStore<F, R>,
        c: char,
    ) -> (result: Result<Float32, GlyphError>)
        requires
            old(store).well_formed(),
            old(self).well_formed(*old(store)),
        ensures
            final(store).well_formed(),
            final(self).well_formed(*final(store)),
            match result {
                Ok(width) => {
                    let entry = final(self).cache()[c];
                    &&& old(self).looked_up(*old(store), c, Ok(entry), *final(self), *final(store))
                    &&& width == entry.1.advance_width
                },
                Err(error) => old(self).looked_up(
                    *old(store),
                    c,
                    Err(error),
                    *final(self),
                    *final(store),
                ),
            },
    {
        Ok(self.glyph_info(store, c)?.1.advance_width)
    }

    /// Can we display this glyph?
    pub fn has_glyph<
        F: Fn(FontScale, Measure) -> Float32,
        R: Fn(&CosmicFont, u16, Float32) -> Option<GlyphImage>,
    >(
        &mut self,
        store: &mut FontStore<F, R>,
        c: char,
    ) -> (result: Result<bool, GlyphError>)
        requires
            old(store).well_formed(),
            old(self).well_formed(*old(store)),
        ensures
            final(store).well_formed(),
            final(self).well_formed(*final(store)),
            match result {
                Ok(has_glyph) => {
                    let entry = final(self).cache()[c];
                    &&& old(self).looked_up(*old(store), c, Ok(entry), *final(self), *final(store))
                    &&& has_glyph == (replacement_char(old(self).faces(*old(store))) == Some(c)
                        || final(self).shows(c))
                    &&& has_glyph == final(self).displays(c)
                },
                Err(error) => old(self).looked_up(
                    *old(store),
                    c,
                    Err(error),
                    *final(self),
                    *final(store),
                ),
            },
    {
        let ghost before = *self;
        let ghost before_store = *store;
        let result = self.glyph_info(store, c);
        proof {
            law_font_lookup(before, before_store, c, result, *self, *store);
        }
        let (font_index, glyph_info) = result?;
        let is_replacement_char = match self.replacement_char {
            Some(replacement_char) => c == replacement_char,
            None => false,
        };
        Ok(
            is_replacement_char || !(font_index == self.replacement_glyph.0 && glyph_info
                == self.replacement_glyph.1),
        )
    }

    /// Can we display all the glyphs in this text?
    pub fn has_glyphs<
        F: Fn(FontScale, Measure) -> Float32,
        R: Fn(&CosmicFont, u16, Float32) -> Option<GlyphImage>,
    >(
        &mut self,
        store: &mut FontStore<F, R>,
        s: &str,
    ) -> (result: Result<bool, GlyphError>)
        requires
            old(store).well_formed(),
            old(self).well_formed(*old(store)),
        ensures
            final(store).well_formed(),
            final(self).well_formed(*final(store)),
            all_asked(*old(self), *old(store), s@, result, *final(self), *final(store)),
    {
        let ghost before = *self;
        let ghost before_store = *store;
        assert(s@.take(0) =~= Seq::<char>::empty());
        for c in it: s.chars()
            invariant
                before == *old(self),
                before_store == *old(store),
                store.well_formed(),
                self.well_formed(*store),
                it.seq() == s@,
                all_looked_up(before, before_store, s@.take(it.index() as int), *self, *store),
                forall|i: int|
                    0 <= i < it.index() ==> self.cache().contains_key(#[trigger] s@[i])
                        && self.displays(s@[i]),
        {
            let ghost font = *self;
            let ghost prior = *store;
            let result = self.has_glyph(store, c);
            match result {
                Ok(has_glyph) => {
                    proof {
                        let n = it.index() as int;
                        let entry = self.cache()[c];
                        law_font_lookup(font, prior, c, Ok(entry), *self, *store);
                        lemma_one_more(
                            before,
                            before_store,
                            s@.take(n),
                            font,
                            prior,
                            c,
                            entry,
                            *self,
                            *store,
                        );
                        assert(s@.take(n).push(c) =~= s@.take(n + 1));
                    }
                    if !has_glyph {
                        return Ok(false);
                    }
                },
                Err(error) => {
                    proof {
                        let n = it.index() as int;
                        assert(stopped_at(before, before_store, s@, n, error, *self, *store));
                    }
                    return Err(error);
                },
            }
        }
        assert(s@.take(s@.len() as int) =~= s@);
        Ok(true)
    }

    /// The font that shows a character, and the glyph; no font if there is none in the
    /// list.
    pub fn font_impl_and_glyph_info<
        'a,
        F: Fn(FontScale, Measure) -> Float32,
        R: Fn(&CosmicFont, u16, Float32) -> Option<GlyphImage>,
    >(
        &mut self,
        store: &'a mut FontStore<F, R>,
        c: char,
    ) -> (result: Result<(Option<&'a FontImpl>, GlyphInfo), GlyphError>)
        requires
            old(store).well_formed(),
            old(self).well_formed(*old(store)),
        ensures
            final(store).well_formed(),
            final(self).well_formed(*final(store)),
            if old(self).fonts().len() == 0 {
                &&& result == Ok::<_, GlyphError>((None::<&'a FontImpl>, old(self).replacement().1))
                &&& *final(self) == *old(self)
                &&& final(store).unchanged(*old(store))
            } else {
                match result {
                    Ok((Some(font_impl), info)) => {
                        let entry = final(self).cache()[c];
                        &&& old(self).looked_up(
                            *old(store),
                            c,
                            Ok(entry),
                            *final(self),
                            *final(store),
                        )
                        &&& entry.0 < final(self).fonts().len()
                        &&& *font_impl == final(self).faces(*final(store))[entry.0 as int]
                        &&& info == entry.1
                    },
                    Ok((None, _)) => false,
                    Err(error) => old(self).looked_up(
                        *old(store),
                        c,
                        Err(error),
                        *final(self),
                        *final(store),
                    ),
                }
            },
    {
        if self.fonts.len() == 0 {
            return Ok((None, self.replacement_glyph.1));
        }
        let (font_index, glyph_info) = self.glyph_info(store, c)?;
        let font_impl = store.font(self.fonts[font_index]);
        Ok((Some(font_impl), glyph_info))
    }
}

} // verus!
