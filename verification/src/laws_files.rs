//! What is found in a font file, said of its bytes and of what the file has to offer: its
//! character map, the code points that the map lists, and its advance widths.

use crate::character::number_of;
use crate::face::{
    find_advance, find_code_points, find_glyph, font_advances, font_charmap, font_code_points,
    font_data, font_directory,
};
use crate::number::Float32;
use crate::tables::{
    assigned_deltas, charmap_lists, charmap_maps, charmap_part, charmap_truncated, check_listing,
    check_mapping, check_metrics, find_group, find_table, group_glyph, group_lists, halved,
    has_groups, holds, hvar_in_order, is_charmap_truncated, list_entry, long, metrics_in_order,
    pick_part, table, variation_store_in_order, whole_table, word, Part, CMAP, HVAR,
};
use cosmic_text::Font as CosmicFont;
use std::sync::Arc;
use vstd::arithmetic::div_mod::lemma_div_denominator;
use vstd::arithmetic::power2::{lemma2_to64, lemma_pow2_pos, lemma_pow2_unfold, pow2};
use vstd::prelude::*;

verus! {

/// Where the character map can be read, the glyph that is looked up for a character is the
/// one that the map has for that very character; it is 0 if and only if the map has none.
/// If it cannot be read, there is no answer.
pub proof fn law_glyph_of_character(font: Arc<CosmicFont>, c: char, glyph_id: Option<u16>)
    requires
        call_ensures(find_glyph, (&font, c), glyph_id),
    ensures
        glyph_id is None <==> !charmap_maps(font_data(*font), font_directory(*font), c as int),
        !charmap_truncated(font_data(*font), font_directory(*font)) ==> {
            &&& glyph_id matches Some(n) ==> font_charmap(*font).contains_key(c) ==> n
                == font_charmap(*font)[c]
            &&& glyph_id matches Some(n) ==> !font_charmap(*font).contains_key(c) ==> n == 0
        },
        charmap_truncated(font_data(*font), font_directory(*font)) ==> {
            glyph_id matches Some(n) ==> n == 0
        },
{
}

/// Two characters to which the character map gives different glyphs are looked up as
/// different glyphs, and two to which it gives the same glyph as the same.
pub proof fn law_characters_are_told_apart(
    font: Arc<CosmicFont>,
    c: char,
    d: char,
    of_c: u16,
    of_d: u16,
)
    requires
        call_ensures(find_glyph, (&font, c), Some(of_c)),
        call_ensures(find_glyph, (&font, d), Some(of_d)),
        !charmap_truncated(font_data(*font), font_directory(*font)),
        font_charmap(*font).contains_key(c),
        font_charmap(*font).contains_key(d),
    ensures
        of_c == of_d <==> font_charmap(*font)[c] == font_charmap(*font)[d],
{
}

/// The code points that are listed are all those that the character map enumerates, in its
/// order, however many they are; none if the file ends before the map begins.
pub proof fn law_all_code_points_are_listed(font: Arc<CosmicFont>, listed: Option<Vec<u32>>)
    requires
        call_ensures(find_code_points, (&font,), listed),
    ensures
        listed is None <==> !charmap_lists(font_data(*font), font_directory(*font)),
        listed matches Some(code_points) ==> if charmap_truncated(
            font_data(*font),
            font_directory(*font),
        ) {
            code_points@.len() == 0
        } else {
            &&& code_points@.len() == font_code_points(*font).len()
            &&& forall|k: int|
                0 <= k < font_code_points(*font).len() ==> #[trigger] code_points@[k]
                    == font_code_points(*font)[k]
        },
{
}

/// The advance width of a glyph is the one that the font has for that very glyph.
pub proof fn law_advance_of_glyph(
    font: Arc<CosmicFont>,
    glyph_id: u16,
    advance: Option<Float32>,
)
    requires
        call_ensures(find_advance, (&font, glyph_id), advance),
    ensures
        advance is None <==> !metrics_in_order(font_data(*font), font_directory(*font), glyph_id),
        advance matches Some(width) ==> width.bits == font_advances(*font)[glyph_id],
{
}

/// The number of a character is its code point.
pub proof fn law_number_of_character(c: char, number: u32)
    requires
        call_ensures(number_of, (c,), number),
    ensures
        number == c as u32,
{
}

/// Numbers in a file are big endian.
pub proof fn law_big_endian(data: Seq<u8>, at: int)
    ensures
        word(data, at) == 0x100 * data[at] + data[at + 1],
        long(data, at) == 0x100_0000 * data[at] + 0x1_0000 * data[at + 1] + 0x100 * data[at + 2]
            + data[at + 3],
{
}

/// In a directory that is sorted by tag, every table is found, where its entry says; and no
/// other.
pub proof fn law_table_is_found(data: Seq<u8>, directory: u32, tag: u32, k: int)
    requires
        directory + 6 <= data.len(),
        directory + 12 + 16 * word(data, directory + 4) <= data.len(),
        forall|i: int, j: int|
            #![trigger long(data, directory + 12 + 16 * i), long(data, directory + 12 + 16 * j)]
            0 <= i < j < word(data, directory + 4) ==> long(data, directory + 12 + 16 * i) < long(
                data,
                directory + 12 + 16 * j,
            ),
    ensures
        0 <= k < word(data, directory + 4) && long(data, directory + 12 + 16 * k) == tag && long(
            data,
            directory + 12 + 16 * k + 8,
        ) + long(data, directory + 12 + 16 * k + 12) <= u32::MAX ==> table(data, directory, tag)
            == Some(
            (
                long(data, directory + 12 + 16 * k + 8),
                long(data, directory + 12 + 16 * k + 8) + long(data, directory + 12 + 16 * k + 12),
            ),
        ),
        table(data, directory, tag) is Some ==> exists|i: int|
            0 <= i < word(data, directory + 4) && #[trigger] long(data, directory + 12 + 16 * i)
                == tag,
{
    let n = word(data, directory + 4);
    if 0 <= k < n && long(data, directory + 12 + 16 * k) == tag {
        lemma_table_between(data, directory, tag, k, 0, n);
    }
    lemma_table_has_tag(data, directory, tag, 0, n);
}

/// Bisection does not lose the table.
proof fn lemma_table_between(data: Seq<u8>, directory: u32, tag: u32, k: int, low: int, high: int)
    requires
        0 <= low <= k < high <= word(data, directory + 4),
        directory + 12 + 16 * word(data, directory + 4) <= data.len(),
        long(data, directory + 12 + 16 * k) == tag,
        forall|i: int, j: int|
            #![trigger long(data, directory + 12 + 16 * i), long(data, directory + 12 + 16 * j)]
            0 <= i < j < word(data, directory + 4) ==> long(data, directory + 12 + 16 * i) < long(
                data,
                directory + 12 + 16 * j,
            ),
    ensures
        ({
            let at = directory + 12 + 16 * k;
            long(data, at + 8) + long(data, at + 12) <= u32::MAX ==> find_table(
                data,
                directory,
                tag,
                low,
                high,
            ) == Some((long(data, at + 8), long(data, at + 8) + long(data, at + 12)))
        }),
    decreases high - low,
{
    let i = (low + high) / 2;
    let (at, other) = (directory + 12 + 16 * k, directory + 12 + 16 * i);
    assert(long(data, at) == tag);
    assert(i < k ==> long(data, other) < long(data, at));
    assert(k < i ==> long(data, at) < long(data, other));
    if i < k {
        lemma_table_between(data, directory, tag, k, i + 1, high);
    } else if k < i {
        lemma_table_between(data, directory, tag, k, low, i);
    }
}

/// What bisection finds has the tag.
proof fn lemma_table_has_tag(data: Seq<u8>, directory: u32, tag: u32, low: int, high: int)
    requires
        0 <= low,
        high <= word(data, directory + 4),
    ensures
        find_table(data, directory, tag, low, high) is Some ==> exists|i: int|
            0 <= i < word(data, directory + 4) && #[trigger] long(data, directory + 12 + 16 * i)
                == tag,
    decreases high - low,
{
    if low < high {
        let i = (low + high) / 2;
        lemma_table_has_tag(data, directory, tag, low, i);
        lemma_table_has_tag(data, directory, tag, i + 1, high);
        assert(long(data, directory + 12 + 16 * i) == long(data, directory + 12 + 16 * i));
    }
}

/// In a character map whose groups are sorted and do not overlap, the number for a code
/// point is that of its group, as many on as the code point is in the group.
pub proof fn law_group_of_code_point(data: Seq<u8>, part: int, code_point: int, k: int)
    requires
        0 <= part,
        part + 16 + 12 * long(data, part + 12) <= data.len(),
        forall|i: int, j: int|
            #![trigger long(data, part + 16 + 12 * i + 4), long(data, part + 16 + 12 * j)]
            0 <= i < j < long(data, part + 12) ==> long(data, part + 16 + 12 * i + 4) < long(
                data,
                part + 16 + 12 * j,
            ),
        forall|i: int|
            0 <= i < long(data, part + 12) ==> #[trigger] long(data, part + 16 + 12 * i) <= long(
                data,
                part + 16 + 12 * i + 4,
            ),
        0 <= k < long(data, part + 12),
        long(data, part + 16 + 12 * k) <= code_point <= long(data, part + 16 + 12 * k + 4),
    ensures
        group_glyph(data, part, code_point) == Some(
            long(data, part + 16 + 12 * k + 8) + (code_point - long(data, part + 16 + 12 * k)),
        ),
{
    lemma_group_between(data, part, code_point, k, 0, long(data, part + 12));
}

/// Bisection does not lose the group.
proof fn lemma_group_between(
    data: Seq<u8>,
    part: int,
    code_point: int,
    k: int,
    low: int,
    high: int,
)
    requires
        0 <= low <= k < high <= long(data, part + 12),
        forall|i: int, j: int|
            #![trigger long(data, part + 16 + 12 * i + 4), long(data, part + 16 + 12 * j)]
            0 <= i < j < long(data, part + 12) ==> long(data, part + 16 + 12 * i + 4) < long(
                data,
                part + 16 + 12 * j,
            ),
        forall|i: int|
            0 <= i < long(data, part + 12) ==> #[trigger] long(data, part + 16 + 12 * i) <= long(
                data,
                part + 16 + 12 * i + 4,
            ),
        long(data, part + 16 + 12 * k) <= code_point <= long(data, part + 16 + 12 * k + 4),
    ensures
        find_group(data, part, code_point, low, high) == Some(k),
    decreases high - low,
{
    let i = (low + high) / 2;
    let (at, other) = (part + 16 + 12 * k, part + 16 + 12 * i);
    assert(long(data, other) <= long(data, other + 4));
    assert(i < k ==> long(data, other + 4) < long(data, at));
    assert(k < i ==> long(data, at + 4) < long(data, other));
    if i < k {
        lemma_group_between(data, part, code_point, k, i + 1, high);
    } else if k < i {
        lemma_group_between(data, part, code_point, k, low, i);
    }
}

/// A code point is refused only if there is a group that holds it, or the place that it has
/// in fonts of symbols, and in which its glyph number does not fit into 32 bits; or if there
/// are more groups than can be addressed.
pub proof fn law_refused_code_point(data: &[u8], directory: u32, code_point: u32, ok: bool)
    requires
        call_ensures(check_mapping, (data, directory, code_point), ok),
        !ok,
    ensures
        ({
            ||| exists|group: int, at: int|
                {
                    &&& 0 <= group && group + 12 <= data@.len()
                    &&& at == code_point || (code_point <= 0xFF && at == code_point + 0xF000)
                    &&& #[trigger] long(data@, group) <= at <= long(data@, group + 4)
                    &&& #[trigger] glyph_in_group(data@, group, at) > u32::MAX
                }
            ||| exists|part: int| 12 * #[trigger] long(data@, part + 12) > usize::MAX
        }),
{
    let part = charmap_part(data@, directory)->0;
    let n = long(data@, part.0 + 12);
    lemma_part_place(data@, directory);
    if 12 * n <= usize::MAX {
        let at = if group_glyph(data@, part.0, code_point as int) matches Some(glyph) && glyph
            > u32::MAX {
            code_point as int
        } else {
            code_point + 0xF000
        };
        lemma_group_holds(data@, part.0, at, 0, n);
        let i = find_group(data@, part.0, at, 0, n)->0;
        let group = part.0 + 16 + 12 * i;
        assert(long(data@, group) <= at <= long(data@, group + 4));
        assert(glyph_in_group(data@, group, at) > u32::MAX);
    }
}

/// The glyph number for a code point in the group at this place.
pub open spec fn glyph_in_group(data: Seq<u8>, group: int, code_point: int) -> int {
    long(data, group + 8) + (code_point - long(data, group))
}

/// The part of a character map that is used starts inside of the file, is made of segments
/// or of groups, and its format is what is there.
proof fn lemma_part_place(data: Seq<u8>, directory: u32)
    ensures
        charmap_part(data, directory) matches Some(part) ==> {
            &&& 0 <= part.0 && part.0 + 2 <= data.len()
            &&& part.1 == word(data, part.0) % 256
            &&& part.1 == 4 || part.1 == 12
        },
{
    if let Some((cmap, _)) = table(data, directory, CMAP) {
        lemma_table_start(data, directory, CMAP, 0, word(data, directory + 4));
        lemma_picked_place(data, cmap, 0, None);
    }
}

/// Tables start at or after the start of the file.
proof fn lemma_table_start(data: Seq<u8>, directory: u32, tag: u32, low: int, high: int)
    ensures
        find_table(data, directory, tag, low, high) matches Some(found) ==> 0 <= found.0
            <= u32::MAX,
    decreases high - low,
{
    if low < high {
        let i = (low + high) / 2;
        lemma_table_start(data, directory, tag, low, i);
        lemma_table_start(data, directory, tag, i + 1, high);
    }
}

/// What is picked starts inside of the file, if the best so far does.
proof fn lemma_picked_place(data: Seq<u8>, cmap: int, j: int, best: Option<Part>)
    requires
        0 <= cmap,
        best matches Some(part) ==> {
            &&& 0 <= part.0 && part.0 + 2 <= data.len()
            &&& part.1 == word(data, part.0) % 256
            &&& part.1 == 4 || part.1 == 12
        },
    ensures
        pick_part(data, cmap, j, best) matches Some(part) ==> {
            &&& 0 <= part.0 && part.0 + 2 <= data.len()
            &&& part.1 == word(data, part.0) % 256
            &&& part.1 == 4 || part.1 == 12
        },
    decreases word(data, cmap + 2) - j,
{
    if j < word(data, cmap + 2) {
        let at = cmap + 4 + 8 * j;
        let part = cmap + long(data, at + 4);
        let format = word(data, part) % 256;
        lemma_picked_place(data, cmap, j + 1, best);
        if holds(data, part, 2) && (format == 4 || format == 12) {
            lemma_picked_place(data, cmap, j + 1, Some((part, format, false)));
        }
    }
}

/// The group that bisection finds holds the code point.
proof fn lemma_group_holds(data: Seq<u8>, part: int, code_point: int, low: int, high: int)
    requires
        0 <= low,
    ensures
        find_group(data, part, code_point, low, high) matches Some(i) ==> {
            &&& low <= i < high
            &&& long(data, part + 16 + 12 * i) <= code_point <= long(data, part + 16 + 12 * i + 4)
        },
    decreases high - low,
{
    if low < high {
        let i = (low + high) / 2;
        lemma_group_holds(data, part, code_point, low, i);
        lemma_group_holds(data, part, code_point, i + 1, high);
    }
}

/// A character map cannot be listed only if there is a group in which the sum of the first
/// glyph and the last code point does not fit into 32 bits; or if there are more groups
/// than can be addressed.
pub proof fn law_refused_listing(data: &[u8], directory: u32, ok: bool)
    requires
        call_ensures(check_listing, (data, directory), ok),
        !ok,
    ensures
        ({
            ||| exists|group: int|
                {
                    &&& 0 <= group && group + 12 <= data@.len()
                    &&& #[trigger] long(data@, group) <= long(data@, group + 4)
                    &&& long(data@, group + 8) + long(data@, group + 4) > u32::MAX
                }
            ||| exists|part: int| 12 * #[trigger] long(data@, part + 12) > usize::MAX
        }),
{
    let part = charmap_part(data@, directory)->0;
    let n = long(data@, part.0 + 12);
    lemma_part_place(data@, directory);
    if 12 * n <= usize::MAX {
        assert(has_groups(data@, part.0));
        let k = choose|k: int| 0 <= k < n && !#[trigger] group_lists(data@, part.0, k);
        let group = part.0 + 16 + 12 * k;
        assert(long(data@, group) <= long(data@, group + 4));
    }
}

/// A code point that can be looked up has a glyph number that fits into 32 bits, in a
/// character map whose groups are sorted and do not overlap.
pub proof fn law_accepted_code_point(
    data: &[u8],
    directory: u32,
    code_point: u32,
    ok: bool,
    part: int,
    symbols: bool,
    k: int,
)
    requires
        call_ensures(check_mapping, (data, directory, code_point), ok),
        ok,
        charmap_part(data@, directory) == Some((part, 12int, symbols)),
        0 <= part,
        part + 16 + 12 * long(data@, part + 12) <= data@.len(),
        forall|i: int, j: int|
            #![trigger long(data@, part + 16 + 12 * i + 4), long(data@, part + 16 + 12 * j)]
            0 <= i < j < long(data@, part + 12) ==> long(data@, part + 16 + 12 * i + 4) < long(
                data@,
                part + 16 + 12 * j,
            ),
        forall|i: int|
            0 <= i < long(data@, part + 12) ==> #[trigger] long(data@, part + 16 + 12 * i) <= long(
                data@,
                part + 16 + 12 * i + 4,
            ),
        0 <= k < long(data@, part + 12),
        long(data@, part + 16 + 12 * k) <= code_point <= long(data@, part + 16 + 12 * k + 4),
    ensures
        glyph_in_group(data@, part + 16 + 12 * k, code_point as int) <= u32::MAX,
{
    law_group_of_code_point(data@, part, code_point as int, k);
}

/// In a character map that can be listed, the first glyph and the last code point of every
/// group add up to what fits into 32 bits.
pub proof fn law_accepted_listing(
    data: &[u8],
    directory: u32,
    ok: bool,
    part: int,
    symbols: bool,
    k: int,
)
    requires
        call_ensures(check_listing, (data, directory), ok),
        ok,
        charmap_part(data@, directory) == Some((part, 12int, symbols)),
        data@[part] == 0,
        0 <= part,
        part + 16 + 12 * long(data@, part + 12) <= data@.len(),
        0 <= k < long(data@, part + 12),
        long(data@, part + 16 + 12 * k) <= long(data@, part + 16 + 12 * k + 4),
    ensures
        long(data@, part + 16 + 12 * k + 8) + long(data@, part + 16 + 12 * k + 4) <= u32::MAX,
{
    lemma_part_place(data@, directory);
    assert(word(data@, part) == 12);
    assert(group_lists(data@, part, k));
}

/// One of the entries of a character map: it says where the part is, and the part is for
/// symbols or for Unicode, as the numbers of the entry say.
pub open spec fn is_entry(data: Seq<u8>, cmap: int, i: int, part: Part) -> bool {
    let at = cmap + 4 + 8 * i;
    &&& 0 <= i < word(data, cmap + 2)
    &&& part.0 == cmap + long(data, at + 4)
    &&& part.1 == data[part.0 + 1]
    &&& part.2 <==> word(data, at) == 3 && word(data, at + 2) == 0
    &&& !part.2 ==> word(data, at) == 0 || (word(data, at) == 3 && (word(data, at + 2) == 1
        || word(data, at + 2) == 10))
}

/// The part of a character map that is used is one of its entries. If it is not one for
/// symbols, no other part is; and then it is made of groups if another one for Unicode is.
pub proof fn law_used_part(data: Seq<u8>, directory: u32, part: Part, i: int, other: Part)
    requires
        charmap_part(data, directory) == Some(part),
    ensures
        table(data, directory, 0x636D_6170) matches Some(cmap) && {
            &&& exists|j: int| #[trigger] is_entry(data, cmap.0, j, part)
            &&& is_entry(data, cmap.0, i, other) && (other.1 == 4 || other.1 == 12) ==> {
                &&& other.2 ==> part.2
                &&& other.1 == 12 ==> part.1 == 12 || part.2
            }
        },
{
    let (cmap, _) = table(data, directory, CMAP)->0;
    lemma_picked_entry(data, cmap, 0, None, part, i, other);
    let j = choose|j: int| 0 <= j && #[trigger] is_entry(data, cmap, j, part);
    assert(is_entry(data, cmap, j, part));
}

/// What is picked is the best so far or one of the entries from here on, and not worse than
/// any of them.
proof fn lemma_picked_entry(
    data: Seq<u8>,
    cmap: int,
    j: int,
    best: Option<Part>,
    part: Part,
    i: int,
    other: Part,
)
    requires
        0 <= j,
        pick_part(data, cmap, j, best) == Some(part),
        best matches Some(b) ==> !b.2,
    ensures
        best == Some(part) || exists|n: int| j <= n && #[trigger] is_entry(data, cmap, n, part),
        best matches Some(b) ==> b.1 == 12 ==> part.1 == 12 || part.2,
        j <= i && is_entry(data, cmap, i, other) && (other.1 == 4 || other.1 == 12) ==> {
            &&& other.2 ==> part.2
            &&& other.1 == 12 ==> part.1 == 12 || part.2
        },
    decreases word(data, cmap + 2) - j,
{
    if j < word(data, cmap + 2) {
        let at = cmap + 4 + 8 * j;
        let here = cmap + long(data, at + 4);
        let format = word(data, here) % 256;
        let (platform, encoding) = (word(data, at), word(data, at + 2));
        assert(format == data[here + 1]);
        if format != 4 && format != 12 {
            lemma_picked_entry(data, cmap, j + 1, best, part, i, other);
        } else if platform == 3 && encoding == 0 {
            assert(is_entry(data, cmap, j, part));
        } else if crate::tables::is_unicode(platform, encoding) && (format == 12 || best is None) {
            let taken = (here, format, false);
            assert(is_entry(data, cmap, j, taken));
            lemma_picked_entry(data, cmap, j + 1, Some(taken), part, i, other);
        } else {
            lemma_picked_entry(data, cmap, j + 1, best, part, i, other);
        }
    }
}

/// An entry of a character map, and the format of its part, are in the file.
pub open spec fn entry_inside(data: Seq<u8>, cmap: int, n: int) -> bool {
    let at = cmap + 4 + 8 * n;
    &&& at + 8 <= data.len()
    &&& cmap + long(data, at + 4) + 2 <= data.len()
    &&& cmap + long(data, at + 4) <= u32::MAX
}

/// If all entries of a character map and their parts are in the file, and one of them is
/// for symbols or for Unicode and made of segments or groups, a part is used.
pub proof fn law_some_part_is_used(
    data: Seq<u8>,
    directory: u32,
    cmap: (int, int),
    i: int,
    part: Part,
)
    requires
        table(data, directory, 0x636D_6170) == Some(cmap),
        0 < cmap.0,
        cmap.0 + 4 <= data.len(),
        forall|n: int|
            0 <= n < word(data, cmap.0 + 2) ==> #[trigger] entry_inside(data, cmap.0, n),
        is_entry(data, cmap.0, i, part),
        part.1 == 4 || part.1 == 12,
    ensures
        charmap_part(data, directory) is Some,
{
    lemma_some_picked(data, cmap.0, 0, None, i, part);
}

/// A part is picked if there is one from here on, or a best so far.
proof fn lemma_some_picked(
    data: Seq<u8>,
    cmap: int,
    j: int,
    best: Option<Part>,
    i: int,
    part: Part,
)
    requires
        0 < cmap,
        0 <= j,
        forall|n: int|
            0 <= n < word(data, cmap + 2) ==> #[trigger] entry_inside(data, cmap, n),
        best is Some || (j <= i && is_entry(data, cmap, i, part) && (part.1 == 4 || part.1 == 12)),
    ensures
        pick_part(data, cmap, j, best) is Some,
    decreases word(data, cmap + 2) - j,
{
    if j < word(data, cmap + 2) {
        let at = cmap + 4 + 8 * j;
        let here = cmap + long(data, at + 4);
        let format = word(data, here) % 256;
        let (platform, encoding) = (word(data, at), word(data, at + 2));
        assert(format == data[here + 1]);
        assert(entry_inside(data, cmap, j));
        if format != 4 && format != 12 {
            lemma_some_picked(data, cmap, j + 1, best, i, part);
        } else if platform == 3 && encoding == 0 {
        } else if crate::tables::is_unicode(platform, encoding) && (format == 12 || best is None) {
            lemma_some_picked(data, cmap, j + 1, Some((here, format, false)), i, part);
        } else {
            lemma_some_picked(data, cmap, j + 1, best, i, part);
        }
    }
}

/// A character map is taken for empty if and only if it is made of groups and the file ends
/// before the first of them could begin.
pub proof fn law_when_map_is_empty(data: &[u8], directory: u32, truncated: bool)
    requires
        call_ensures(is_charmap_truncated, (data, directory), truncated),
    ensures
        truncated <==> (charmap_part(data@, directory) matches Some(part) && part.1 == 12
            && data@.len() < part.0 + 16),
{
    lemma_part_place(data@, directory);
}

/// A character map is taken for empty only if it is made of groups and the file ends before
/// the first of them could begin.
pub proof fn law_empty_character_map(data: &[u8], directory: u32, truncated: bool)
    requires
        call_ensures(is_charmap_truncated, (data, directory), truncated),
        truncated,
    ensures
        exists|part: int|
            0 <= part && part + 2 <= data@.len() < part + 16 && #[trigger] data@[part + 1] == 12,
{
    let part = charmap_part(data@, directory)->0;
    lemma_part_place(data@, directory);
    assert(data@[part.0 + 1] == 12);
}

/// A file in which the metrics of a glyph cannot be read lacks the font header or the
/// maximum profile, counts no metric, has a descender of -32768, has metrics that start
/// where they cannot be addressed, or has variations that are not in order. There is no
/// other reason.
pub proof fn law_refused_metrics(data: &[u8], directory: u32, glyph_id: u16, ok: bool)
    requires
        call_ensures(check_metrics, (data, directory, glyph_id), ok),
        !ok,
    ensures
        ({
            ||| whole_table(data@, directory, 0x6865_6164) is None
            ||| whole_table(data@, directory, 0x6D61_7870) is None
            ||| whole_table(data@, directory, 0x6868_6561) matches Some(hhea) && (hhea.1 < hhea.0
                + 36 || (data@[hhea.0 + 34] == 0 && data@[hhea.0 + 35] == 0))
            ||| whole_table(data@, directory, 0x6868_6561) matches Some(hhea) && data@[hhea.0 + 6]
                == 0x80 && data@[hhea.0 + 7] == 0
            ||| whole_table(data@, directory, 0x7668_6561) matches Some(vhea) && data@[vhea.0 + 6]
                == 0x80 && data@[vhea.0 + 7] == 0
            ||| whole_table(data@, directory, 0x4F53_2F32) matches Some(os2) && data@[os2.0 + 70]
                == 0x80 && data@[os2.0 + 71] == 0
            ||| table(data@, directory, 0x686D_7478) matches Some(hmtx) && hmtx.0 + 0x4_0000
                > usize::MAX
            ||| table(data@, directory, 0x4856_4152) matches Some(hvar) && hvar.0 > 0
                && !sound_variations(data@, hvar.0)
        }),
{
    lemma_table_start(data@, directory, HVAR, 0, word(data@, directory + 4));
    if let Some(hvar) = table(data@, directory, HVAR) {
        if hvar.0 != 0 && sound_variations(data@, hvar.0) {
            lemma_sound_variations(data@, hvar.0, glyph_id);
        }
    }
}

/// A file in which the metrics of a glyph can be read has a font header and a maximum
/// profile, and if it has a horizontal header, metrics are counted there.
pub proof fn law_accepted_metrics(data: &[u8], directory: u32, glyph_id: u16, ok: bool)
    requires
        call_ensures(check_metrics, (data, directory, glyph_id), ok),
        ok,
    ensures
        whole_table(data@, directory, 0x6865_6164) is Some,
        whole_table(data@, directory, 0x6D61_7870) is Some,
        whole_table(data@, directory, 0x6868_6561) matches Some(hhea) ==> {
            &&& hhea.0 + 36 <= hhea.1
            &&& data@[hhea.0 + 34] != 0 || data@[hhea.0 + 35] != 0
        },
        whole_table(data@, directory, 0x7668_6561) matches Some(vhea) ==> vhea.0 + 8 <= vhea.1
            ==> data@[vhea.0 + 6] != 0x80 || data@[vhea.0 + 7] != 0,
        table(data@, directory, 0x686D_7478) matches Some(hmtx) ==> hmtx.0 + 0x4_0000
            <= usize::MAX,
        whole_table(data@, directory, 0x4F53_2F32) matches Some(os2) ==> os2.0 + 72 <= os2.1
            && data@[os2.0 + 63] >= 0x80 ==> data@[os2.0 + 70] != 0x80 || data@[os2.0 + 71] != 0,
        whole_table(data@, directory, 0x6868_6561) matches Some(hhea) ==> {
            whole_table(data@, directory, 0x4F53_2F32) matches Some(os2) ==> os2.0 + 64 <= os2.1
                && data@[os2.0 + 63] < 0x80 ==> data@[hhea.0 + 6] != 0x80 || data@[hhea.0 + 7] != 0
        },
        whole_table(data@, directory, 0x6868_6561) matches Some(hhea) ==> whole_table(
            data@,
            directory,
            0x4F53_2F32,
        ) is None ==> data@[hhea.0 + 6] != 0x80 || data@[hhea.0 + 7] != 0,
{
}

/// The number in some bytes, the first of which counts most.
pub open spec fn big_endian(data: Seq<u8>, at: int, size: nat) -> int
    decreases size,
{
    if size == 0 {
        0
    } else {
        big_endian(data, at, (size - 1) as nat) * 0x100 + data[at + size - 1]
    }
}

/// Where the metrics of a glyph can be read and vary, the group of deltas that the glyph is
/// assigned to has no more wide deltas than deltas. It is the first group if there is no
/// list; otherwise its number is in the upper bits of the entry of the list for this glyph,
/// and glyphs after the last entry share that one.
pub proof fn law_accepted_variations(
    data: &[u8],
    directory: u32,
    glyph_id: u16,
    ok: bool,
    hvar: (int, int),
    k: int,
)
    requires
        call_ensures(check_metrics, (data, directory, glyph_id), ok),
        ok,
        table(data@, directory, 0x4856_4152) == Some(hvar),
        hvar.0 > 0,
        hvar.0 + 12 <= data@.len(),
        long(data@, hvar.0 + 4) != 0,
        ({
            let store = hvar.0 + long(data@, hvar.0 + 4);
            let list = hvar.0 + long(data@, hvar.0 + 8);
            let size = (data@[list + 1] / 16) % 4 + 1;
            let count = word(data@, list + 2);
            let i = if glyph_id < count {
                glyph_id as int
            } else {
                count - 1
            };
            let entry = big_endian(data@, list + 4 + size * i, size as nat);
            &&& store + 8 <= data@.len()
            &&& 0 <= k < word(data@, store + 6)
            &&& store + 8 + 4 * k + 4 <= data@.len()
            &&& store + long(data@, store + 2) + 4 <= data@.len()
            &&& store + long(data@, store + 8 + 4 * k) + 6 <= data@.len()
            &&& if list == hvar.0 {
                k == 0
            } else {
                &&& list + 4 <= data@.len()
                &&& list + 4 + size * i + size <= data@.len()
                &&& count != 0 ==> k == (entry / (pow2((data@[list + 1] % 16 + 1) as nat) as int))
                    % 0x1_0000
            }
        }),
    ensures
        ({
            let store = hvar.0 + long(data@, hvar.0 + 4);
            let deltas = store + long(data@, store + 8 + 4 * k);
            word(data@, deltas + 2) <= word(data@, deltas + 4)
        }),
        long(data@, hvar.0 + 8) != 0 ==> word(data@, hvar.0 + long(data@, hvar.0 + 8) + 2) != 0,
{
    let list = hvar.0 + long(data@, hvar.0 + 8);
    let store = hvar.0 + long(data@, hvar.0 + 4);
    assert(hvar_in_order(data@, hvar.0, glyph_id));
    if list != hvar.0 {
        assert(word(data@, list + 2) != 0);
        lemma_assigned_deltas(data@, list, glyph_id);
    }
    assert(variation_store_in_order(data@, store, k));
}

/// The group of deltas that a list assigns to a glyph is in the upper bits of its entry.
proof fn lemma_assigned_deltas(data: Seq<u8>, list: int, glyph_id: u16)
    requires
        0 <= list,
        word(data, list + 2) != 0,
        ({
            let size = (data[list + 1] / 16) % 4 + 1;
            let count = word(data, list + 2);
            let i = if glyph_id < count {
                glyph_id as int
            } else {
                count - 1
            };
            list + 4 + size * i + size <= data.len()
        }),
    ensures
        ({
            let size = (data[list + 1] / 16) % 4 + 1;
            let count = word(data, list + 2);
            let i = if glyph_id < count {
                glyph_id as int
            } else {
                count - 1
            };
            let entry = big_endian(data, list + 4 + size * i, size as nat);
            assigned_deltas(data, list, glyph_id) == Some(
                (entry / (pow2((data[list + 1] % 16 + 1) as nat) as int)) % 0x1_0000,
            )
        }),
{
    let format = word(data, list);
    let size = (data[list + 1] / 16) % 4 + 1;
    assert((format / 16) % 4 + 1 == size);
    assert(format % 16 == data[list + 1] % 16);
    let count = word(data, list + 2);
    let i = if glyph_id < count {
        glyph_id as int
    } else {
        count - 1
    };
    lemma_list_entry(data, list + 4, size as int, i);
    lemma_halved(
        big_endian(data, list + 4 + size * i, size as nat),
        (data[list + 1] % 16 + 1) as nat,
    );
}

/// The entry of a list is the number in its bytes.
proof fn lemma_list_entry(data: Seq<u8>, list: int, size: int, i: int)
    requires
        1 <= size <= 4,
        0 <= list,
        0 <= i,
        list + size * i + size <= data.len(),
    ensures
        list_entry(data, list, size, i) == Some(big_endian(data, list + size * i, size as nat)),
        big_endian(data, list + size * i, size as nat) >= 0,
{
    reveal_with_fuel(big_endian, 5);
    if size == 1 {
    } else if size == 2 {
    } else if size == 3 {
    } else {
        assert(size == 4);
    }
}

/// Halving some times over is dividing by a power of two.
proof fn lemma_halved(x: int, n: nat)
    requires
        0 <= x,
    ensures
        halved(x, n) == x / (pow2(n) as int),
    decreases n,
{
    if n == 0 {
        lemma2_to64();
    } else {
        lemma_halved(x, (n - 1) as nat);
        lemma_pow2_unfold(n);
        lemma_pow2_pos((n - 1) as nat);
        lemma_div_denominator(x, pow2((n - 1) as nat) as int, 2);
    }
}

/// Variations of metrics in which nothing is wrong: they can be addressed, their store is
/// inside of what 32 bits can address, the list that assigns deltas to glyphs is not empty,
/// and no group has more wide deltas than deltas.
pub open spec fn sound_variations(data: Seq<u8>, hvar: int) -> bool {
    let store = hvar + long(data, hvar + 4);
    &&& usize::MAX >= 0x100_0000_0000
    &&& store <= u32::MAX
    &&& word(data, hvar + long(data, hvar + 8) + 2) != 0
    &&& forall|k: int|
        {
            let deltas = store + #[trigger] long(data, store + 8 + 4 * k);
            0 <= k < word(data, store + 6) ==> word(data, deltas + 2) <= word(data, deltas + 4)
        }
}

/// Where nothing is wrong with the variations, they can be read.
proof fn lemma_sound_variations(data: Seq<u8>, hvar: int, glyph_id: u16)
    requires
        0 <= hvar <= u32::MAX,
        sound_variations(data, hvar),
    ensures
        hvar_in_order(data, hvar, glyph_id),
{
    let store = hvar + long(data, hvar + 4);
    let list = hvar + long(data, hvar + 8);
    lemma_group_of_deltas(data, store, 0);
    if let Some(k) = assigned_deltas(data, list, glyph_id) {
        lemma_group_of_deltas(data, store, k);
    }
}

/// A group of deltas that has no more wide ones than deltas can be read.
proof fn lemma_group_of_deltas(data: Seq<u8>, store: int, k: int)
    requires
        usize::MAX >= 0x100_0000_0000,
        0 <= store <= u32::MAX,
        0 <= k,
        ({
            let deltas = store + long(data, store + 8 + 4 * k);
            k < word(data, store + 6) ==> word(data, deltas + 2) <= word(data, deltas + 4)
        }),
    ensures
        variation_store_in_order(data, store, k),
{
    let regions = store + long(data, store + 2);
    let (axes, count) = (word(data, regions), word(data, regions + 2));
    assert(axes * (count + 1) <= 0xFFFF * 0x1_0000) by (nonlinear_arith)
        requires
            0 <= axes <= 0xFFFF,
            0 <= count <= 0xFFFF,
    ;
}

/// A table lies inside of the file if it ends there.
pub proof fn law_whole_table(data: Seq<u8>, directory: u32, tag: u32)
    ensures
        whole_table(data, directory, tag) is Some <==> (table(data, directory, tag) matches Some(
            found,
        ) && found.1 <= data.len()),
        whole_table(data, directory, tag) is Some ==> whole_table(data, directory, tag) == table(
            data,
            directory,
            tag,
        ),
{
}

} // verus!
