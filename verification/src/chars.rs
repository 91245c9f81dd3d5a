//! Classification of the characters that the cleaning rules act on.

use vstd::prelude::*;

verus! {

/// The zero-width family: ZWSP, ZWNJ, ZWJ, and the byte-order mark
/// in its zero-width no-break-space role.
pub open spec fn is_zero_width(c: char) -> bool {
    c == '\u{200B}' || c == '\u{200C}' || c == '\u{200D}' || c == '\u{FEFF}'
}

/// An ASCII control character that the control-character rule deletes:
/// code points at or below 0x1F, or 0x7F, except `\n`, `\r` and `\t`,
/// which are always preserved.
pub open spec fn is_removable_control(c: char) -> bool {
    (c as u32 <= 0x1F || c as u32 == 0x7F) && c != '\n' && c != '\r' && c != '\t'
}

/// The Unicode `White_Space` property, written out code point by code point.
pub open spec fn is_unicode_whitespace(c: char) -> bool {
    ||| c == '\u{0009}'
    ||| c == '\u{000A}'
    ||| c == '\u{000B}'
    ||| c == '\u{000C}'
    ||| c == '\u{000D}'
    ||| c == '\u{0020}'
    ||| c == '\u{0085}'
    ||| c == '\u{00A0}'
    ||| c == '\u{1680}'
    ||| (0x2000 <= c as u32 && c as u32 <= 0x200A)
    ||| c == '\u{2028}'
    ||| c == '\u{2029}'
    ||| c == '\u{202F}'
    ||| c == '\u{205F}'
    ||| c == '\u{3000}'
}

/// A whitespace character that the unicode-whitespace rule deletes:
/// any Unicode whitespace except the regular space, `\n`, `\r` and `\t`.
pub open spec fn is_removable_unicode_ws(c: char) -> bool {
    is_unicode_whitespace(c) && c != ' ' && c != '\n' && c != '\r' && c != '\t'
}

/// A `Cc` (control) code point, as `char::is_control` classifies them:
/// 0x00 through 0x1F and 0x7F through 0x9F.
pub open spec fn is_control_char(c: char) -> bool {
    c as u32 <= 0x1F || (0x7F <= c as u32 && c as u32 <= 0x9F)
}

pub fn check_zero_width(c: char) -> (b: bool)
    ensures
        b == is_zero_width(c),
{
    c == '\u{200B}' || c == '\u{200C}' || c == '\u{200D}' || c == '\u{FEFF}'
}

pub fn check_removable_control(c: char) -> (b: bool)
    ensures
        b == is_removable_control(c),
{
    (c as u32 <= 0x1F || c as u32 == 0x7F) && c != '\n' && c != '\r' && c != '\t'
}

pub fn check_unicode_whitespace(c: char) -> (b: bool)
    ensures
        b == is_unicode_whitespace(c),
{
    let u = c as u32;
    u == 0x0009 || u == 0x000A || u == 0x000B || u == 0x000C || u == 0x000D || u == 0x0020
        || u == 0x0085 || u == 0x00A0 || u == 0x1680 || (0x2000 <= u && u <= 0x200A)
        || u == 0x2028 || u == 0x2029 || u == 0x202F || u == 0x205F || u == 0x3000
}

pub fn check_removable_unicode_ws(c: char) -> (b: bool)
    ensures
        b == is_removable_unicode_ws(c),
{
    check_unicode_whitespace(c) && c != ' ' && c != '\n' && c != '\r' && c != '\t'
}

pub fn check_control_char(c: char) -> (b: bool)
    ensures
        b == is_control_char(c),
{
    c as u32 <= 0x1F || (0x7F <= c as u32 && c as u32 <= 0x9F)
}

} // verus!
