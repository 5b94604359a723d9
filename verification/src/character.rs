//! Characters that get special treatment whatever the font holds.

use vstd::prelude::*;

verus! {

/// Is this number a character, that is, a code point that is no surrogate?
pub open spec fn is_scalar(code_point: u32) -> bool {
    code_point < 0xD800 || 0xE000 <= code_point <= 0x10FFFF
}

/// `char::from_u32`: the character with this number, and `None` if no character
/// has it.
pub assume_specification[ char::from_u32 ](code_point: u32) -> (c: Option<char>)
    ensures
        c == (if is_scalar(code_point) { Some(code_point as char) } else { None }),
;

/// Code points that are shown as nothing at all: the carriage return, and the
/// zero-width and directional formatting characters.
pub open spec fn is_invisible(c: char) -> bool {
    let cp = c as u32;
    ||| c == '\r'
    ||| 0x200B <= cp <= 0x200F
    ||| 0x202A <= cp <= 0x202E
    ||| 0x2060 <= cp <= 0x2064
    ||| 0x2066 <= cp <= 0x206F
    ||| cp == 0xFEFF
}

/// Code points that will always be invisible (zero width).
///
/// See also [`crate::font_impl::FontImpl::ignore_character`].
pub fn invisible_char(c: char) -> (invisible: bool)
    ensures
        invisible == is_invisible(c),
{
    if c == '\r' {
        // A character most vile and pernicious. Don't display it.
        return true;
    }
    matches!(
        c,
        '\u{200B}' // ZERO WIDTH SPACE
            | '\u{200C}' // ZERO WIDTH NON-JOINER
            | '\u{200D}' // ZERO WIDTH JOINER
            | '\u{200E}' // LEFT-TO-RIGHT MARK
            | '\u{200F}' // RIGHT-TO-LEFT MARK
            | '\u{202A}' // LEFT-TO-RIGHT EMBEDDING
            | '\u{202B}' // RIGHT-TO-LEFT EMBEDDING
            | '\u{202C}' // POP DIRECTIONAL FORMATTING
            | '\u{202D}' // LEFT-TO-RIGHT OVERRIDE
            | '\u{202E}' // RIGHT-TO-LEFT OVERRIDE
            | '\u{2060}' // WORD JOINER
            | '\u{2061}' // FUNCTION APPLICATION
            | '\u{2062}' // INVISIBLE TIMES
            | '\u{2063}' // INVISIBLE SEPARATOR
            | '\u{2064}' // INVISIBLE PLUS
            | '\u{2066}' // LEFT-TO-RIGHT ISOLATE
            | '\u{2067}' // RIGHT-TO-LEFT ISOLATE
            | '\u{2068}' // FIRST STRONG ISOLATE
            | '\u{2069}' // POP DIRECTIONAL ISOLATE
            | '\u{206A}' // INHIBIT SYMMETRIC SWAPPING
            | '\u{206B}' // ACTIVATE SYMMETRIC SWAPPING
            | '\u{206C}' // INHIBIT ARABIC FORM SHAPING
            | '\u{206D}' // ACTIVATE ARABIC FORM SHAPING
            | '\u{206E}' // NATIONAL DIGIT SHAPES
            | '\u{206F}' // NOMINAL DIGIT SHAPES
            | '\u{FEFF}' // ZERO WIDTH NO-BREAK SPACE
    )
}

/// The number of a character.
pub fn number_of(c: char) -> (number: u32)
    ensures
        is_scalar(number),
        number as char == c,
{
    c as u32
}

} // verus!
