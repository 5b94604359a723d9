//! The fonts of [`cosmic_text`], and what is taken from their tables.
//!
//! What the tables of a font say is not described here, only named: its character map,
//! the code points that the map lists, and its advance widths. Before any of these is asked
//! for, the bytes of the font file are looked at, see [`crate::tables`]: where the numbers
//! in it do not fit together, there is no answer.

use crate::character::number_of;
use crate::number::Float32;
use crate::tables::{
    charmap_lists, charmap_maps, charmap_truncated, check_listing, check_mapping, check_metrics,
    is_charmap_truncated, metrics_in_order,
};
use cosmic_text::Font as CosmicFont;
use std::sync::Arc;
use vstd::prelude::*;

verus! {

/// A font face whose file is loaded. It never changes.
#[verifier::external_type_specification]
#[verifier::external_body]
pub struct ExCosmicFont(CosmicFont);

/// The bytes of the file that a font is in.
pub uninterp spec fn font_data(font: CosmicFont) -> Seq<u8>;

/// Where in its file the table directory of a font is.
pub uninterp spec fn font_directory(font: CosmicFont) -> u32;

/// The character map of a font: the characters that have a glyph, each with the
/// number of that glyph, which is not zero.
pub uninterp spec fn font_charmap(font: CosmicFont) -> Map<char, u16>;

/// The code points that the character map of a font lists, in its order.
pub uninterp spec fn font_code_points(font: CosmicFont) -> Seq<u32>;

/// The advance width of every glyph of a font in font units, as the bits of a
/// single-precision number.
pub uninterp spec fn font_advances(font: CosmicFont) -> Map<u16, u32>;

/// `CosmicFont::data`: the bytes of the file that the font is in, which never change.
#[verifier::external_body]
fn file_of(font: &Arc<CosmicFont>) -> (bytes: &[u8])
    ensures
        bytes@ == font_data(**font),
{
    font.data()
}

/// The field `offset` of what `CosmicFont::as_swash` returns: where in the file the table
/// directory of the font is. It never changes.
#[verifier::external_body]
fn directory_of(font: &Arc<CosmicFont>) -> (offset: u32)
    ensures
        offset == font_directory(**font),
{
    font.as_swash().offset
}

/// `swash::Charmap::map` on `CosmicFont::as_swash`: the number of the glyph that the
/// character map of the font has for `c`. It is 0 where the map has none, and what it
/// is otherwise depends on the tables of the font and on `c` alone. A character map that
/// ends before it begins, or in which the sum that makes the glyph number does not fit,
/// would make that function overflow.
#[verifier::external_body]
fn map_char(font: &Arc<CosmicFont>, c: char) -> (glyph_id: u16)
    requires
        !charmap_truncated(font_data(**font), font_directory(**font)),
        charmap_maps(font_data(**font), font_directory(**font), c as int),
    ensures
        glyph_id == (if font_charmap(**font).contains_key(c) {
            font_charmap(**font)[c]
        } else {
            0
        }),
        glyph_id != 0 <==> font_charmap(**font).contains_key(c),
{
    font.as_swash().charmap().map(c)
}

/// `swash::Charmap::enumerate` on `CosmicFont::as_swash`: the code points that it
/// passes to its callback, in that order. They depend on the tables of the font alone.
/// Nothing is said of them: a table can list numbers that are no characters, and code
/// points that `Charmap::map` does not find. A character map that ends before it begins, or
/// in which a sum that makes a glyph number does not fit, would make that function
/// overflow.
#[verifier::external_body]
fn list_code_points(font: &Arc<CosmicFont>) -> (code_points: Vec<u32>)
    requires
        !charmap_truncated(font_data(**font), font_directory(**font)),
        charmap_lists(font_data(**font), font_directory(**font)),
    ensures
        code_points@ == font_code_points(**font),
{
    let mut code_points = Vec::new();
    font.as_swash().charmap().enumerate(|code_point, _| code_points.push(code_point));
    code_points
}

/// `swash::GlyphMetrics::advance_width` on `CosmicFont::as_swash`, without variations:
/// the advance width of a glyph in font units. It depends on the tables of the font
/// and on the number of the glyph alone. Tables that are not in order would make that
/// function overflow: glyphs without a metric of their own share the last one, for
/// instance, which cannot be found where none is counted.
#[verifier::external_body]
fn advance_width(font: &Arc<CosmicFont>, glyph_id: u16) -> (advance: Float32)
    requires
        metrics_in_order(font_data(**font), font_directory(**font), glyph_id),
    ensures
        advance.bits == font_advances(**font)[glyph_id],
{
    Float32 { bits: font.as_swash().glyph_metrics(&[]).advance_width(glyph_id).to_bits() }
}

/// Can the character be looked up in the character map of the font?
pub open spec fn can_map(font: CosmicFont, c: char) -> bool {
    charmap_maps(font_data(font), font_directory(font), c as int)
}

/// The number of the glyph for a character, 0 if the font has none.
pub open spec fn glyph_number(font: CosmicFont, c: char) -> u16 {
    if !charmap_truncated(font_data(font), font_directory(font)) && font_charmap(
        font,
    ).contains_key(c) {
        font_charmap(font)[c]
    } else {
        0
    }
}

/// Looks up a character in the character map of a font; `None` if that cannot be done.
pub fn find_glyph(font: &Arc<CosmicFont>, c: char) -> (glyph_id: Option<u16>)
    ensures
        glyph_id is Some <==> can_map(**font, c),
        glyph_id matches Some(n) ==> n == glyph_number(**font, c),
{
    let (data, directory) = (file_of(font), directory_of(font));
    let number: u32 = number_of(c);
    if !check_mapping(data, directory, number) {
        None
    } else if is_charmap_truncated(data, directory) {
        Some(0)
    } else {
        Some(map_char(font, c))
    }
}

/// Can the code points of the character map be listed?
pub open spec fn can_list(font: CosmicFont) -> bool {
    charmap_lists(font_data(font), font_directory(font))
}

/// The code points that the character map of a font lists.
pub open spec fn listed_code_points(font: CosmicFont) -> Seq<u32> {
    if charmap_truncated(font_data(font), font_directory(font)) {
        Seq::empty()
    } else {
        font_code_points(font)
    }
}

/// Lists the code points of the character map; `None` if that cannot be done.
pub fn find_code_points(font: &Arc<CosmicFont>) -> (code_points: Option<Vec<u32>>)
    ensures
        code_points is Some <==> can_list(**font),
        code_points matches Some(listed) ==> listed@ == listed_code_points(**font),
{
    let (data, directory) = (file_of(font), directory_of(font));
    if !check_listing(data, directory) {
        None
    } else if is_charmap_truncated(data, directory) {
        Some(Vec::new())
    } else {
        Some(list_code_points(font))
    }
}

/// Can the advance width of the glyph be read?
pub open spec fn can_measure(font: CosmicFont, glyph_id: u16) -> bool {
    metrics_in_order(font_data(font), font_directory(font), glyph_id)
}

/// The advance width of a glyph in font units; `None` if it cannot be read.
pub fn find_advance(font: &Arc<CosmicFont>, glyph_id: u16) -> (advance: Option<Float32>)
    ensures
        advance is Some <==> can_measure(**font, glyph_id),
        advance matches Some(width) ==> width.bits == font_advances(**font)[glyph_id],
{
    if check_metrics(file_of(font), directory_of(font), glyph_id) {
        Some(advance_width(font, glyph_id))
    } else {
        None
    }
}

} // verus!
