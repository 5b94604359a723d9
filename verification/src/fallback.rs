//! Lists of fonts, in which the first font that supports a character shows it.

use crate::font_impl::FontImpl;
use crate::glyph::GlyphInfo;
use vstd::prelude::*;

verus! {

/// Position of a font in a list of fonts.
pub type FontIndex = usize;

/// Shown in place of characters that no font supports: white medium square.
pub const PRIMARY_REPLACEMENT_CHAR: char = '\u{25FB}';

/// Fallback for the fallback.
pub const FALLBACK_REPLACEMENT_CHAR: char = '?';

/// All numbers are in use.
pub open spec fn all_in_use(ids: Seq<usize>, fonts: Seq<FontImpl>) -> bool {
    forall|i: int| 0 <= i < ids.len() ==> (#[trigger] ids[i]) < fonts.len()
}

/// The fonts with these numbers.
pub open spec fn pick(ids: Seq<usize>, fonts: Seq<FontImpl>) -> Seq<FontImpl> {
    Seq::new(ids.len(), |i: int| fonts[ids[i] as int])
}

/// No font of the list supports the character.
pub open spec fn unsupported(faces: Seq<FontImpl>, c: char) -> bool {
    forall|i: int| 0 <= i < faces.len() ==> !(#[trigger] faces[i]).supports(c)
}

/// The font at position `i` is the first that supports the character.
pub open spec fn first_at(faces: Seq<FontImpl>, c: char, i: int) -> bool {
    &&& 0 <= i < faces.len()
    &&& faces[i].supports(c)
    &&& forall|j: int| 0 <= j < i ==> !(#[trigger] faces[j]).supports(c)
}

/// The glyph is the one that the first font that supports the character has in
/// its cache.
pub open spec fn from_first(
    faces: Seq<FontImpl>,
    c: char,
    entry: (FontIndex, GlyphInfo),
) -> bool {
    &&& first_at(faces, c, entry.0 as int)
    &&& faces[entry.0 as int].cache().contains_key(c)
    &&& faces[entry.0 as int].cache()[c] == entry.1
}

/// The glyph is the right one for the character: that of the first font that
/// supports it, or the replacement.
pub open spec fn resolved(
    faces: Seq<FontImpl>,
    replacement: (FontIndex, GlyphInfo),
    c: char,
    entry: (FontIndex, GlyphInfo),
) -> bool {
    if unsupported(faces, c) {
        entry == replacement
    } else {
        from_first(faces, c, entry)
    }
}

/// The character whose glyph is shown in place of characters that no font supports,
/// if there is one.
pub open spec fn replacement_char(faces: Seq<FontImpl>) -> Option<char> {
    if !unsupported(faces, PRIMARY_REPLACEMENT_CHAR) {
        Some(PRIMARY_REPLACEMENT_CHAR)
    } else if !unsupported(faces, FALLBACK_REPLACEMENT_CHAR) {
        Some(FALLBACK_REPLACEMENT_CHAR)
    } else {
        None
    }
}

/// The glyph is that of the replacement character, or nothing if there is none.
pub open spec fn is_replacement(faces: Seq<FontImpl>, glyph: (FontIndex, GlyphInfo)) -> bool {
    match replacement_char(faces) {
        Some(c) => from_first(faces, c, glyph),
        None => glyph.0 == 0 && glyph.1.is_blank(),
    }
}

/// Do the character maps of all the fonts list characters only?
pub open spec fn all_list_characters(faces: Seq<FontImpl>) -> bool {
    forall|i: int| 0 <= i < faces.len() ==> (#[trigger] faces[i]).lists_characters()
}

/// The code points of the characters that the fonts list.
pub open spec fn all_listed(faces: Seq<FontImpl>) -> Set<u32> {
    Set::new(
        |cp: u32|
            exists|i: int|
                0 <= i < faces.len() && (#[trigger] faces[i]).listed().contains(cp as char)
                    && crate::character::is_scalar(cp),
    )
}

/// The same fonts, which have looked up some more glyphs.
pub open spec fn faces_extend(before: Seq<FontImpl>, after: Seq<FontImpl>) -> bool {
    &&& after.len() == before.len()
    &&& forall|i: int| 0 <= i < after.len() ==> (#[trigger] after[i]).extends(before[i])
}

/// Looking up more glyphs changes neither which font shows a character nor the
/// glyphs that were looked up before.
pub proof fn law_faces_extend(before: Seq<FontImpl>, after: Seq<FontImpl>)
    requires
        faces_extend(before, after),
    ensures
        forall|c: char| #[trigger] unsupported(after, c) == unsupported(before, c),
        forall|c: char, i: int| #[trigger] first_at(after, c, i) == first_at(before, c, i),
        forall|c: char, entry: (FontIndex, GlyphInfo)|
            from_first(before, c, entry) ==> #[trigger] from_first(after, c, entry),
        forall|replacement: (FontIndex, GlyphInfo), c: char, entry: (FontIndex, GlyphInfo)|
            resolved(before, replacement, c, entry) ==> #[trigger] resolved(
                after,
                replacement,
                c,
                entry,
            ),
        replacement_char(after) == replacement_char(before),
        forall|glyph: (FontIndex, GlyphInfo)|
            is_replacement(before, glyph) ==> #[trigger] is_replacement(after, glyph),
        all_list_characters(after) == all_list_characters(before),
        all_listed(after) == all_listed(before),
{
    assert forall|i: int, c: char| 0 <= i < after.len() implies after[i].supports(c)
        == #[trigger] before[i].supports(c) by {
        assert(after[i].extends(before[i]));
    }
    assert forall|c: char| #[trigger] unsupported(after, c) == unsupported(before, c) by {
        if unsupported(after, c) {
            assert forall|i: int| 0 <= i < before.len() implies !(#[trigger] before[i]).supports(
                c,
            ) by {
                assert(!after[i].supports(c));
            }
        }
    }
    assert forall|c: char, i: int| #[trigger] first_at(after, c, i) == first_at(before, c, i) by {
        if first_at(after, c, i) {
            assert forall|j: int| 0 <= j < i implies !(#[trigger] before[j]).supports(c) by {
                assert(!after[j].supports(c));
            }
        }
    }
    assert forall|c: char, entry: (FontIndex, GlyphInfo)| from_first(
        before,
        c,
        entry,
    ) implies #[trigger] from_first(after, c, entry) by {
        assert(first_at(after, c, entry.0 as int));
        assert(after[entry.0 as int].extends(before[entry.0 as int]));
    }
    assert forall|i: int| 0 <= i < after.len() implies {
        &&& after[i].listed() == (#[trigger] before[i]).listed()
        &&& after[i].lists_characters() == before[i].lists_characters()
    } by {
        assert(after[i].extends(before[i]));
        assert((|c: char| !after[i].ignores(c)) =~= (|c: char| !before[i].ignores(c)));
    }
    if all_list_characters(after) {
        assert forall|i: int| 0 <= i < before.len() implies (#[trigger] before[i]).lists_characters() by {
            assert(after[i].lists_characters());
        }
    }
    assert forall|cp: u32| #[trigger] all_listed(after).contains(cp) == all_listed(before).contains(
        cp,
    ) by {
        if all_listed(after).contains(cp) {
            let i = choose|i: int|
                0 <= i < after.len() && (#[trigger] after[i]).listed().contains(cp as char);
            assert(before[i].listed().contains(cp as char));
        }
        if all_listed(before).contains(cp) {
            let i = choose|i: int|
                0 <= i < before.len() && (#[trigger] before[i]).listed().contains(cp as char);
            assert(after[i].listed().contains(cp as char));
        }
    }
    assert(all_listed(after) =~= all_listed(before));
}

} // verus!
