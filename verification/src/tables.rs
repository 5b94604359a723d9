//! The tables of a font file, as far as they are looked at before the file is used.
//!
//! The numbers in a file can be such that sums of them do not fit into the integers
//! that fonts are read with. What is stated here is when they do. A file is described
//! by its bytes and by the place of its table directory; all numbers in it are big
//! endian.

use vstd::prelude::*;

verus! {

/// Tag of the character map.
pub const CMAP: u32 = 0x636D_6170;

/// Tag of the font header.
pub const HEAD: u32 = 0x6865_6164;

/// Tag of the horizontal header.
pub const HHEA: u32 = 0x6868_6561;

/// Tag of the horizontal metrics.
pub const HMTX: u32 = 0x686D_7478;

/// Tag of the variations of horizontal metrics.
pub const HVAR: u32 = 0x4856_4152;

/// Tag of the maximum profile, which counts the glyphs.
pub const MAXP: u32 = 0x6D61_7870;

/// Tag of the metrics for one vendor's systems.
pub const OS2: u32 = 0x4F53_2F32;

/// Tag of the vertical header.
pub const VHEA: u32 = 0x7668_6561;

/// The format of a character map that is made of segments.
pub const SEGMENTS_FORMAT: u16 = 4;

/// The format of a character map that is made of groups.
pub const GROUPS_FORMAT: u16 = 12;

/// The number -32768 in two bytes: it has no opposite in two bytes.
pub const LEAST_SHORT: u16 = 0x8000;

/// Where the first characters of a symbol font may be found, too.
pub const SYMBOL_OFFSET: u32 = 0xF000;

/// Are there `n` bytes at this place?
pub open spec fn holds(data: Seq<u8>, at: int, n: int) -> bool {
    0 <= at && at + n <= data.len()
}

/// The number in two bytes.
pub open spec fn word(data: Seq<u8>, at: int) -> int {
    data[at] * 256 + data[at + 1]
}

/// The number in four bytes.
pub open spec fn long(data: Seq<u8>, at: int) -> int {
    word(data, at) * 65536 + word(data, at + 2)
}

/// The table that bisection finds among some entries of the table directory: where it
/// starts and where it ends. The search gives up at an entry that is not all there.
pub open spec fn find_table(data: Seq<u8>, directory: u32, tag: u32, low: int, high: int) -> Option<
    (int, int),
>
    decreases high - low,
{
    let i = (low + high) / 2;
    let at = directory + 12 + 16 * i;
    if low >= high || !holds(data, at, 4) {
        None
    } else if tag < long(data, at) {
        find_table(data, directory, tag, low, i)
    } else if tag > long(data, at) {
        find_table(data, directory, tag, i + 1, high)
    } else if holds(data, at, 16) && long(data, at + 8) + long(data, at + 12) <= u32::MAX {
        Some((long(data, at + 8), long(data, at + 8) + long(data, at + 12)))
    } else {
        None
    }
}

/// The table with this tag: where it starts and where it ends.
pub open spec fn table(data: Seq<u8>, directory: u32, tag: u32) -> Option<(int, int)> {
    if holds(data, directory + 4, 2) {
        find_table(data, directory, tag, 0, word(data, directory + 4))
    } else {
        None
    }
}

/// The table with this tag, if it lies inside of the file.
pub open spec fn whole_table(data: Seq<u8>, directory: u32, tag: u32) -> Option<(int, int)> {
    match table(data, directory, tag) {
        Some((start, end)) => if end <= data.len() {
            Some((start, end))
        } else {
            None
        },
        None => None,
    }
}

/// The number in two bytes of a table; 0 if the table is too short.
pub open spec fn word_of(data: Seq<u8>, found: (int, int), at: int) -> int {
    if found.0 + at + 2 <= found.1 {
        word(data, found.0 + at)
    } else {
        0
    }
}

/// A part of a character map: where it starts, its format, and whether it is for symbols.
pub type Part = (int, int, bool);

/// The part of a character map that is used, given the best of the parts before the one
/// at position `j`. A part for symbols is taken at once; among those for Unicode, the last
/// that is made of groups goes before the first that is not.
pub open spec fn pick_part(data: Seq<u8>, cmap: int, j: int, best: Option<Part>) -> Option<Part>
    decreases word(data, cmap + 2) - j,
{
    let at = cmap + 4 + 8 * j;
    let part = cmap + long(data, at + 4);
    let format = word(data, part) % 256;
    let (platform, encoding) = (word(data, at), word(data, at + 2));
    if j >= word(data, cmap + 2) {
        best
    } else if !holds(data, at, 8) || !holds(data, part, 2) {
        None
    } else if format != SEGMENTS_FORMAT && format != GROUPS_FORMAT {
        pick_part(data, cmap, j + 1, best)
    } else if part > u32::MAX {
        None
    } else if platform == 3 && encoding == 0 {
        Some((part, format, true))
    } else if is_unicode(platform, encoding) && (format == GROUPS_FORMAT || best is None) {
        pick_part(data, cmap, j + 1, Some((part, format, false)))
    } else {
        pick_part(data, cmap, j + 1, best)
    }
}

/// Is this an encoding of Unicode?
pub open spec fn is_unicode(platform: int, encoding: int) -> bool {
    platform == 0 || (platform == 3 && (encoding == 1 || encoding == 10))
}

/// The part of the character map that is used.
pub open spec fn charmap_part(data: Seq<u8>, directory: u32) -> Option<Part> {
    match table(data, directory, CMAP) {
        Some((cmap, _)) => if cmap != 0 && holds(data, cmap, 4) {
            pick_part(data, cmap, 0, None)
        } else {
            None
        },
        None => None,
    }
}

/// The part is made of groups, and the file ends before they begin: it has none.
pub open spec fn part_truncated(data: Seq<u8>, part: Part) -> bool {
    part.1 == GROUPS_FORMAT && !holds(data, part.0, 16)
}

/// The character map is used as if it were empty, for the file ends before it begins.
pub open spec fn charmap_truncated(data: Seq<u8>, directory: u32) -> bool {
    charmap_part(data, directory) matches Some(part) && part_truncated(data, part)
}

/// All the groups that a part claims to have are in the file; otherwise none is used.
pub open spec fn has_groups(data: Seq<u8>, part: int) -> bool {
    holds(data, part + 16, 12 * long(data, part + 12))
}

/// The group that bisection finds for a code point.
pub open spec fn find_group(
    data: Seq<u8>,
    part: int,
    code_point: int,
    low: int,
    high: int,
) -> Option<int>
    decreases high - low,
{
    let i = (low + high) / 2;
    let group = part + 16 + 12 * i;
    if low >= high {
        None
    } else if code_point < long(data, group) {
        find_group(data, part, code_point, low, i)
    } else if code_point > long(data, group + 4) {
        find_group(data, part, code_point, i + 1, high)
    } else {
        Some(i)
    }
}

/// The number that a part that is made of groups has for a code point, before it is cut
/// off to 16 bits: the first glyph of the group, and as many on as the code point is.
pub open spec fn group_glyph(data: Seq<u8>, part: int, code_point: int) -> Option<int> {
    if !has_groups(data, part) {
        None
    } else {
        match find_group(data, part, code_point, 0, long(data, part + 12)) {
            Some(i) => {
                let group = part + 16 + 12 * i;
                Some(code_point - long(data, group) + long(data, group + 8))
            },
            None => None,
        }
    }
}

/// The number for a code point fits into 32 bits, if there is one.
pub open spec fn group_glyph_fits(data: Seq<u8>, part: int, code_point: int) -> bool {
    group_glyph(data, part, code_point) matches Some(glyph) ==> glyph <= u32::MAX
}

/// There is no glyph for the code point.
pub open spec fn no_group_glyph(data: Seq<u8>, part: int, code_point: int) -> bool {
    group_glyph(data, part, code_point) matches Some(glyph) ==> glyph % 65536 == 0
}

/// The code point can be looked up in a part: the numbers on the way fit. In a font of
/// symbols, one of the first code points that has no glyph is looked up at its other place.
pub open spec fn part_maps(data: Seq<u8>, part: Part, code_point: int) -> bool {
    part.1 == GROUPS_FORMAT && !part_truncated(data, part) ==> {
        &&& 12 * long(data, part.0 + 12) <= usize::MAX
        &&& group_glyph_fits(data, part.0, code_point)
        &&& part.2 && code_point <= 0xFF && no_group_glyph(data, part.0, code_point)
            ==> group_glyph_fits(data, part.0, code_point + SYMBOL_OFFSET)
    }
}

/// The code point can be looked up in the character map.
pub open spec fn charmap_maps(data: Seq<u8>, directory: u32, code_point: int) -> bool {
    charmap_part(data, directory) matches Some(part) ==> part_maps(data, part, code_point)
}

/// The glyph numbers of a group, from its first glyph on, fit into 32 bits even when a
/// code point is added to them before the first code point is taken away.
pub open spec fn group_lists(data: Seq<u8>, part: int, k: int) -> bool {
    let group = part + 16 + 12 * k;
    long(data, group) > long(data, group + 4) || long(data, group + 8) + long(data, group + 4)
        <= u32::MAX
}

/// The code points of a part can be listed.
pub open spec fn part_lists(data: Seq<u8>, part: Part) -> bool {
    word(data, part.0) == GROUPS_FORMAT && holds(data, part.0, 16) ==> {
        &&& 12 * long(data, part.0 + 12) <= usize::MAX
        &&& has_groups(data, part.0) ==> forall|k: int|
            0 <= k < long(data, part.0 + 12) ==> #[trigger] group_lists(data, part.0, k)
    }
}

/// The code points of the character map can be listed.
pub open spec fn charmap_lists(data: Seq<u8>, directory: u32) -> bool {
    charmap_part(data, directory) matches Some(part) ==> part_lists(data, part)
}

/// The deltas of one group of metrics are in order: it has no more wide deltas than deltas, and its
/// last delta and the last region can be addressed.
pub open spec fn deltas_in_order(data: Seq<u8>, store: int, k: int) -> bool {
    let entry = store + 8 + 4 * k;
    let regions = store + long(data, store + 2);
    holds(data, entry, 4) && holds(data, regions, 4) ==> {
        let deltas = store + long(data, entry);
        &&& deltas + 6 <= usize::MAX
        &&& holds(data, deltas + 2, 4) ==> {
            let wide = word(data, deltas + 2);
            let all = word(data, deltas + 4);
            &&& wide <= all
            &&& deltas + 6 + 2 * all + 65536 * (all + wide) <= usize::MAX
            &&& regions + 4 + 6 * (word(data, regions) * (word(data, regions + 2) + 1))
                <= usize::MAX
        }
    }
}

/// The metric deltas of one group, if there is such a group, can be read.
pub open spec fn variation_store_in_order(data: Seq<u8>, store: int, k: int) -> bool {
    &&& store + 8 + 4 * 65536 <= usize::MAX
    &&& holds(data, store, 8) && k < word(data, store + 6) ==> {
        &&& store + long(data, store + 2) + 4 <= usize::MAX
        &&& deltas_in_order(data, store, k)
    }
}

/// Half of the number, rounded down, `n` times over.
pub open spec fn halved(x: int, n: nat) -> int
    decreases n,
{
    if n == 0 {
        x
    } else {
        halved(x, (n - 1) as nat) / 2
    }
}

/// The number in an entry of a list whose entries have 1 to 4 bytes.
pub open spec fn list_entry(data: Seq<u8>, list: int, size: int, i: int) -> Option<int> {
    if size == 1 && holds(data, list + i, 1) {
        Some(data[list + i] as int)
    } else if size == 2 && holds(data, list + 2 * i, 2) {
        Some(word(data, list + 2 * i))
    } else if size == 3 && holds(data, list + 3 * i, 3) {
        Some(word(data, list + 3 * i) * 256 + data[list + 3 * i + 2])
    } else if size == 4 && holds(data, list + 4 * i, 4) {
        Some(long(data, list + 4 * i))
    } else {
        None
    }
}

/// The group of deltas that a list assigns to a glyph. Glyphs that are not in the list
/// share its last entry; the upper bits of an entry are the number of the group.
pub open spec fn assigned_deltas(data: Seq<u8>, list: int, glyph_id: u16) -> Option<int> {
    let (format, count) = (word(data, list), word(data, list + 2));
    let i = if glyph_id >= count {
        count - 1
    } else {
        glyph_id as int
    };
    match list_entry(data, list + 4, (format / 16) % 4 + 1, i) {
        Some(entry) => Some(halved(entry, (format % 16 + 1) as nat) % 65536),
        None => None,
    }
}

/// The variations of the horizontal metrics of a glyph can be read: the list that assigns
/// deltas to glyphs, if there is one, is not empty, and the deltas are in order.
pub open spec fn hvar_in_order(data: Seq<u8>, hvar: int, glyph_id: u16) -> bool {
    &&& hvar + 12 <= usize::MAX
    &&& holds(data, hvar + 4, 4) && long(data, hvar + 4) != 0 ==> {
        let store = hvar + long(data, hvar + 4);
        let list = hvar + long(data, hvar + 8);
        &&& store <= u32::MAX
        &&& holds(data, hvar + 8, 4) ==> if list == hvar {
            variation_store_in_order(data, store, 0)
        } else {
            &&& list + 4 + 4 * 65536 <= usize::MAX
            &&& holds(data, list, 4) ==> {
                &&& word(data, list + 2) != 0
                &&& assigned_deltas(data, list, glyph_id) matches Some(k)
                    ==> variation_store_in_order(data, store, k)
            }
        }
    }
}

/// The typographic metrics are to be used.
pub open spec fn uses_typographic(data: Seq<u8>, os2: (int, int)) -> bool {
    (word_of(data, os2, 62) / 128) % 2 == 1
}

/// The descenders that are read have opposites. That of the horizontal header is not read
/// where the typographic ones are used and there is an ascender among them.
pub open spec fn descenders_in_order(data: Seq<u8>, directory: u32) -> bool {
    let typographic = whole_table(data, directory, OS2) matches Some(os2) && uses_typographic(
        data,
        os2,
    );
    &&& whole_table(data, directory, OS2) matches Some(os2) ==> typographic ==> word_of(
        data,
        os2,
        70,
    ) != LEAST_SHORT
    &&& whole_table(data, directory, HHEA) matches Some(hhea) ==> {
        ||| whole_table(data, directory, OS2) matches Some(os2) && typographic && word_of(
            data,
            os2,
            68,
        ) != 0
        ||| word_of(data, hhea, 6) != LEAST_SHORT
    }
    &&& whole_table(data, directory, VHEA) matches Some(vhea) ==> word_of(data, vhea, 6)
        != LEAST_SHORT
}

/// The horizontal metrics of a glyph can be read: the tables that say how are there, at
/// least one metric is counted, and the numbers on the way fit.
pub open spec fn metrics_in_order(data: Seq<u8>, directory: u32, glyph_id: u16) -> bool {
    &&& whole_table(data, directory, HEAD) is Some
    &&& whole_table(data, directory, MAXP) is Some
    &&& descenders_in_order(data, directory)
    &&& whole_table(data, directory, HHEA) matches Some(hhea) ==> word_of(data, hhea, 34) != 0
    &&& table(data, directory, HMTX) matches Some(hmtx) ==> hmtx.0 + 4 * 65536 <= usize::MAX
    &&& table(data, directory, HVAR) matches Some(hvar) ==> hvar.0 == 0 || hvar_in_order(
        data,
        hvar.0,
        glyph_id,
    )
}

/// The number in the two bytes at this place, if there are two.
fn read_word(data: &[u8], at: u64) -> (number: Option<u16>)
    ensures
        number is Some <==> holds(data@, at as int, 2),
        number matches Some(n) ==> n == word(data@, at as int),
{
    let len = data.len() as u64;
    if at < len && len - at >= 2 {
        let i = at as usize;
        Some(data[i] as u16 * 256 + data[i + 1] as u16)
    } else {
        None
    }
}

/// The number in the four bytes at this place, if there are four.
fn read_long(data: &[u8], at: u64) -> (number: Option<u32>)
    ensures
        number is Some <==> holds(data@, at as int, 4),
        number matches Some(n) ==> n == long(data@, at as int),
{
    let len = data.len() as u64;
    if at < len && len - at >= 4 {
        let i = at as usize;
        let high: u32 = data[i] as u32 * 256 + data[i + 1] as u32;
        let low: u32 = data[i + 2] as u32 * 256 + data[i + 3] as u32;
        Some(high * 65536 + low)
    } else {
        None
    }
}

/// A table as a mathematical value.
spec fn table_view(found: Option<(u32, u32)>) -> Option<(int, int)> {
    match found {
        Some((start, end)) => Some((start as int, end as int)),
        None => None,
    }
}

/// Looks for the table with this tag.
fn search_table(data: &[u8], directory: u32, tag: u32) -> (found: Option<(u32, u32)>)
    ensures
        table_view(found) == table(data@, directory, tag),
        found matches Some((start, end)) ==> start <= end,
{
    let mut low: u32 = 0;
    let mut high: u32 = match read_word(data, directory as u64 + 4) {
        Some(count) => count as u32,
        None => {
            return None;
        },
    };
    while low < high
        invariant
            low <= high <= 0xFFFF,
            holds(data@, directory + 4, 2),
            table(data@, directory, tag) == find_table(
                data@,
                directory,
                tag,
                low as int,
                high as int,
            ),
        decreases high - low,
    {
        let i: u32 = (low + high) / 2;
        let at: u64 = directory as u64 + 12 + 16 * i as u64;
        let found: u32 = match read_long(data, at) {
            Some(found) => found,
            None => {
                return None;
            },
        };
        if tag < found {
            high = i;
        } else if tag > found {
            low = i + 1;
        } else {
            return match (read_long(data, at + 8), read_long(data, at + 12)) {
                (Some(start), Some(len)) => if len <= u32::MAX - start {
                    Some((start, start + len))
                } else {
                    None
                },
                _ => None,
            };
        }
    }
    None
}

/// Looks for the table with this tag, which is to lie inside of the file.
fn search_whole_table(data: &[u8], directory: u32, tag: u32) -> (found: Option<(u32, u32)>)
    ensures
        table_view(found) == whole_table(data@, directory, tag),
        found matches Some((start, end)) ==> start <= end <= data@.len(),
{
    match search_table(data, directory, tag) {
        Some((start, end)) => if end as u64 <= data.len() as u64 {
            Some((start, end))
        } else {
            None
        },
        None => None,
    }
}

/// Reads two bytes of a table.
fn read_word_of(data: &[u8], found: (u32, u32), at: u32) -> (number: u16)
    requires
        found.0 <= found.1 <= data@.len(),
    ensures
        number == word_of(data@, (found.0 as int, found.1 as int), at as int),
{
    let place: u64 = found.0 as u64 + at as u64;
    if place + 2 <= found.1 as u64 {
        match read_word(data, place) {
            Some(number) => number,
            None => 0,
        }
    } else {
        0
    }
}

/// A part as a mathematical value.
spec fn part_view(part: Option<(u32, u16, bool)>) -> Option<Part> {
    match part {
        Some((start, format, symbol)) => Some((start as int, format as int, symbol)),
        None => None,
    }
}

/// Looks for the part of the character map that is used.
fn search_part(data: &[u8], directory: u32) -> (part: Option<(u32, u16, bool)>)
    ensures
        part_view(part) == charmap_part(data@, directory),
{
    let cmap: u32 = match search_table(data, directory, CMAP) {
        Some((start, _)) => start,
        None => {
            return None;
        },
    };
    if cmap == 0 {
        return None;
    }
    let count: u16 = match read_word(data, cmap as u64 + 2) {
        Some(count) => count,
        None => {
            return None;
        },
    };
    let mut best: Option<(u32, u16, bool)> = None;
    let mut j: u16 = 0;
    while j < count
        invariant
            j <= count,
            holds(data@, cmap as int, 4),
            count == word(data@, cmap + 2),
            charmap_part(data@, directory) == pick_part(
                data@,
                cmap as int,
                j as int,
                part_view(best),
            ),
        decreases count - j,
    {
        let at: u64 = cmap as u64 + 4 + 8 * j as u64;
        match (read_word(data, at), read_word(data, at + 2), read_long(data, at + 4)) {
            (Some(platform), Some(encoding), Some(offset)) => {
                let part: u64 = cmap as u64 + offset as u64;
                let format: u16 = match read_word(data, part) {
                    Some(format) => format % 256,
                    None => {
                        return None;
                    },
                };
                if format == SEGMENTS_FORMAT || format == GROUPS_FORMAT {
                    if part > u32::MAX as u64 {
                        return None;
                    }
                    if platform == 3 && encoding == 0 {
                        return Some((part as u32, format, true));
                    }
                    let unicode = platform == 0 || (platform == 3 && (encoding == 1 || encoding
                        == 10));
                    if unicode && (format == GROUPS_FORMAT || best.is_none()) {
                        best = Some((part as u32, format, false));
                    }
                }
            },
            _ => {
                return None;
            },
        }
        j = j + 1;
    }
    best
}

/// Tests whether the character map is used as if it were empty.
pub fn is_charmap_truncated(data: &[u8], directory: u32) -> (truncated: bool)
    ensures
        truncated == charmap_truncated(data@, directory),
{
    match search_part(data, directory) {
        Some((start, format, _)) => format == GROUPS_FORMAT && read_long(
            data,
            start as u64 + 12,
        ).is_none(),
        None => false,
    }
}

/// Works out the number that a part has for a code point.
fn read_group_glyph(data: &[u8], part: u32, code_point: u32) -> (glyph: Option<u64>)
    requires
        holds(data@, part as int, 16),
    ensures
        glyph is Some <==> group_glyph(data@, part as int, code_point as int) is Some,
        glyph matches Some(n) ==> group_glyph(data@, part as int, code_point as int) == Some(
            n as int,
        ),
{
    let count: u32 = match read_long(data, part as u64 + 12) {
        Some(count) => count,
        None => {
            return None;
        },
    };
    if part as u64 + 16 + 12 * count as u64 > data.len() as u64 {
        return None;
    }
    let mut low: u64 = 0;
    let mut high: u64 = count as u64;
    while low < high
        invariant
            low <= high <= count,
            has_groups(data@, part as int),
            count == long(data@, part + 12),
            find_group(data@, part as int, code_point as int, 0, count as int) == find_group(
                data@,
                part as int,
                code_point as int,
                low as int,
                high as int,
            ),
        decreases high - low,
    {
        let i: u64 = (low + high) / 2;
        let group: u64 = part as u64 + 16 + 12 * i;
        match (read_long(data, group), read_long(data, group + 4), read_long(data, group + 8)) {
            (Some(first), Some(last), Some(glyph)) => {
                if code_point < first {
                    high = i;
                } else if code_point > last {
                    low = i + 1;
                } else {
                    return Some((code_point - first) as u64 + glyph as u64);
                }
            },
            _ => {
                return None;
            },
        }
    }
    None
}

/// Tests whether a code point can be looked up in the character map.
pub fn check_mapping(data: &[u8], directory: u32, code_point: u32) -> (ok: bool)
    requires
        code_point <= 0x10FFFF,
    ensures
        ok == charmap_maps(data@, directory, code_point as int),
{
    match search_part(data, directory) {
        Some((start, format, symbol)) => {
            if format != GROUPS_FORMAT {
                return true;
            }
            let count: u32 = match read_long(data, start as u64 + 12) {
                Some(count) => count,
                None => {
                    return true;
                },
            };
            if 12 * count as u64 > usize::MAX as u64 {
                return false;
            }
            let has_none = match read_group_glyph(data, start, code_point) {
                Some(glyph) => {
                    if glyph > u32::MAX as u64 {
                        return false;
                    }
                    glyph % 65536 == 0
                },
                None => true,
            };
            if symbol && code_point <= 0xFF && has_none {
                match read_group_glyph(data, start, code_point + SYMBOL_OFFSET) {
                    Some(glyph) => glyph <= u32::MAX as u64,
                    None => true,
                }
            } else {
                true
            }
        },
        None => true,
    }
}

/// Tests whether the code points of the character map can be listed.
pub fn check_listing(data: &[u8], directory: u32) -> (ok: bool)
    ensures
        ok == charmap_lists(data@, directory),
{
    let part: u32 = match search_part(data, directory) {
        Some((start, _, _)) => start,
        None => {
            return true;
        },
    };
    if let Some(format) = read_word(data, part as u64) {
        if format != GROUPS_FORMAT {
            return true;
        }
    }
    let count: u32 = match read_long(data, part as u64 + 12) {
        Some(count) => count,
        None => {
            return true;
        },
    };
    if 12 * count as u64 > usize::MAX as u64 {
        return false;
    }
    if part as u64 + 16 + 12 * count as u64 > data.len() as u64 {
        return true;
    }
    let mut k: u32 = 0;
    while k < count
        invariant
            k <= count,
            charmap_part(data@, directory) matches Some(found) && found.0 == part,
            word(data@, part as int) == GROUPS_FORMAT,
            holds(data@, part as int, 16),
            count == long(data@, part + 12),
            has_groups(data@, part as int),
            forall|j: int| 0 <= j < k ==> #[trigger] group_lists(data@, part as int, j),
        decreases count - k,
    {
        let group: u64 = part as u64 + 16 + 12 * k as u64;
        match (read_long(data, group), read_long(data, group + 4), read_long(data, group + 8)) {
            (Some(first), Some(last), Some(glyph)) => {
                if first <= last && glyph as u64 + last as u64 > u32::MAX as u64 {
                    assert(!group_lists(data@, part as int, k as int));
                    return false;
                }
            },
            _ => {
                return false;
            },
        }
        k = k + 1;
    }
    true
}

/// Tests one group of metric deltas.
fn check_deltas(data: &[u8], store: u32, k: u16) -> (ok: bool)
    requires
        holds(data@, store as int, 8),
    ensures
        ok == deltas_in_order(data@, store as int, k as int),
{
    let at: u64 = store as u64;
    let limit: u64 = usize::MAX as u64;
    let regions: u64 = match read_long(data, at + 2) {
        Some(offset) => at + offset as u64,
        None => {
            return false;
        },
    };
    let deltas: u64 = match read_long(data, at + 8 + 4 * k as u64) {
        Some(offset) => at + offset as u64,
        None => {
            return true;
        },
    };
    match (read_word(data, regions), read_word(data, regions + 2)) {
        (Some(axes), Some(count)) => {
            if deltas + 6 > limit {
                return false;
            }
            match (read_word(data, deltas + 2), read_word(data, deltas + 4)) {
                (Some(wide), Some(all)) => {
                    let (wide, all) = (wide as u64, all as u64);
                    let (axes, count) = (axes as u64, count as u64 + 1);
                    assert(axes * count <= 0xFFFF * 0x1_0000) by (nonlinear_arith)
                        requires
                            axes <= 0xFFFF,
                            count <= 0x1_0000,
                    ;
                    wide <= all && deltas + 6 + 2 * all + 65536 * (all + wide) <= limit && regions
                        + 4 + 6 * (axes * count) <= limit
                },
                _ => true,
            }
        },
        _ => true,
    }
}

/// Tests whether the metric deltas of one group can be read.
fn check_variation_store(data: &[u8], store: u32, k: u16) -> (ok: bool)
    ensures
        ok == variation_store_in_order(data@, store as int, k as int),
{
    let at: u64 = store as u64;
    let limit: u64 = usize::MAX as u64;
    if at + 8 + 4 * 65536 > limit {
        return false;
    }
    match (read_word(data, at + 6), read_long(data, at + 2)) {
        (Some(count), Some(offset)) => k >= count || (at + offset as u64 + 4 <= limit
            && check_deltas(data, store, k)),
        _ => true,
    }
}

/// Reads the number in an entry of a list.
fn read_list_entry(data: &[u8], list: u64, size: u16, i: u16) -> (entry: Option<u32>)
    requires
        list <= 0x2_0000_0003,
        1 <= size <= 4,
    ensures
        entry is Some <==> list_entry(data@, list as int, size as int, i as int) is Some,
        entry matches Some(n) ==> list_entry(data@, list as int, size as int, i as int) == Some(
            n as int,
        ),
{
    let i: u64 = i as u64;
    let len: u64 = data.len() as u64;
    if size == 1 {
        let at: u64 = list + i;
        if at < len {
            Some(data[at as usize] as u32)
        } else {
            None
        }
    } else if size == 2 {
        match read_word(data, list + 2 * i) {
            Some(number) => Some(number as u32),
            None => None,
        }
    } else if size == 3 {
        let at: u64 = list + 3 * i;
        if at + 2 < len {
            match read_word(data, at) {
                Some(number) => Some(number as u32 * 256 + data[(at + 2) as usize] as u32),
                None => None,
            }
        } else {
            None
        }
    } else {
        read_long(data, list + 4 * i)
    }
}

/// Reads which group of deltas a list assigns to a glyph.
fn read_assigned_deltas(data: &[u8], list: u64, glyph_id: u16) -> (k: Option<u16>)
    requires
        list <= 0x1_FFFF_FFFF,
        holds(data@, list as int, 4),
        word(data@, list + 2) != 0,
    ensures
        k is Some <==> assigned_deltas(data@, list as int, glyph_id) is Some,
        k matches Some(n) ==> assigned_deltas(data@, list as int, glyph_id) == Some(n as int),
{
    match (read_word(data, list), read_word(data, list + 2)) {
        (Some(format), Some(count)) => {
            let i: u16 = if glyph_id >= count {
                count - 1
            } else {
                glyph_id
            };
            match read_list_entry(data, list + 4, (format / 16) % 4 + 1, i) {
                Some(entry) => {
                    let mut rest: u32 = entry;
                    let mut n: u16 = 0;
                    while n < format % 16 + 1
                        invariant
                            n <= format % 16 + 1,
                            rest == halved(entry as int, n as nat),
                        decreases format % 16 + 1 - n,
                    {
                        rest = rest / 2;
                        n = n + 1;
                    }
                    Some((rest % 65536) as u16)
                },
                None => None,
            }
        },
        _ => None,
    }
}

/// Tests the variations of the horizontal metrics of a glyph.
fn check_hvar(data: &[u8], hvar: u32, glyph_id: u16) -> (ok: bool)
    ensures
        ok == hvar_in_order(data@, hvar as int, glyph_id),
{
    let at: u64 = hvar as u64;
    let limit: u64 = usize::MAX as u64;
    if at + 12 > limit {
        return false;
    }
    let store: u64 = match read_long(data, at + 4) {
        Some(offset) => if offset == 0 {
            return true;
        } else {
            at + offset as u64
        },
        None => {
            return true;
        },
    };
    if store > u32::MAX as u64 {
        return false;
    }
    let list: u64 = match read_long(data, at + 8) {
        Some(offset) => at + offset as u64,
        None => {
            return true;
        },
    };
    if list == at {
        return check_variation_store(data, store as u32, 0);
    }
    if list + 4 + 4 * 65536 > limit {
        return false;
    }
    match read_word(data, list + 2) {
        Some(count) => count != 0 && match read_assigned_deltas(data, list, glyph_id) {
            Some(k) => check_variation_store(data, store as u32, k),
            None => true,
        },
        None => true,
    }
}

/// Tests the descenders that are read.
fn check_descenders(data: &[u8], directory: u32) -> (ok: bool)
    ensures
        ok == descenders_in_order(data@, directory),
{
    let mut has_ascender = false;
    if let Some(os2) = search_whole_table(data, directory, OS2) {
        if (read_word_of(data, os2, 62) / 128) % 2 == 1 {
            if read_word_of(data, os2, 70) == LEAST_SHORT {
                return false;
            }
            has_ascender = read_word_of(data, os2, 68) != 0;
        }
    }
    if let Some(hhea) = search_whole_table(data, directory, HHEA) {
        if !has_ascender && read_word_of(data, hhea, 6) == LEAST_SHORT {
            return false;
        }
    }
    match search_whole_table(data, directory, VHEA) {
        Some(vhea) => read_word_of(data, vhea, 6) != LEAST_SHORT,
        None => true,
    }
}

/// Tests whether the horizontal metrics of a glyph can be read.
pub fn check_metrics(data: &[u8], directory: u32, glyph_id: u16) -> (ok: bool)
    ensures
        ok == metrics_in_order(data@, directory, glyph_id),
{
    if search_whole_table(data, directory, HEAD).is_none() || search_whole_table(
        data,
        directory,
        MAXP,
    ).is_none() || !check_descenders(data, directory) {
        return false;
    }
    if let Some(hhea) = search_whole_table(data, directory, HHEA) {
        if read_word_of(data, hhea, 34) == 0 {
            return false;
        }
    }
    if let Some((hmtx, _)) = search_table(data, directory, HMTX) {
        if hmtx as u64 + 4 * 65536 > usize::MAX as u64 {
            return false;
        }
    }
    match search_table(data, directory, HVAR) {
        Some((hvar, _)) => hvar == 0 || check_hvar(data, hvar, glyph_id),
        None => true,
    }
}

} // verus!
