//! Character classification: the Unicode properties that layout inference
//! reads, and the contracts under which the functions computing them are
//! used.

use unicode_bidi::{bidi_class, BidiClass};
use vstd::prelude::*;

verus! {

/// The bidirectional class of a character, as far as layout inference
/// tells classes apart: the two strongly right-to-left classes, `R`
/// (right-to-left) and `AL` (Arabic letter), and all the others together.
#[derive(Debug, Clone, Copy, PartialEq, Eq, Structural)]
pub enum BidiGroup {
    R,
    AL,
    Other,
}

/// The group of the class that `unicode_bidi::bidi_class` finds for `c` in
/// the table of the `Bidi_Class` property compiled into that crate.
pub uninterp spec fn bidi_group_of(c: char) -> BidiGroup;

/// Calls `unicode_bidi::bidi_class`, a search in a constant table that
/// returns for every character and depends on the character alone, and
/// tells the classes `R` and `AL` from the rest. The table itself is not
/// restated here.
#[verifier::external_body]
pub(crate) fn bidi_group(c: char) -> (group: BidiGroup)
    ensures
        group == bidi_group_of(c),
{
    match bidi_class(c) {
        BidiClass::R => BidiGroup::R,
        BidiClass::AL => BidiGroup::AL,
        _ => BidiGroup::Other,
    }
}

/// Whether `c` has the Unicode `White_Space` property, as
/// `char::is_whitespace` decides it.
pub uninterp spec fn is_white_space(c: char) -> bool;

/// `char::is_whitespace` is a property lookup that depends on the character
/// alone.
pub assume_specification[ char::is_whitespace ](c: char) -> (b: bool)
    ensures
        b == is_white_space(c),
;

/// Whether `c` is in the Unicode general category `Cc`, as
/// `char::is_control` decides it.
pub uninterp spec fn is_control_code(c: char) -> bool;

/// `char::is_control` is a property lookup that depends on the character
/// alone.
pub assume_specification[ char::is_control ](c: char) -> (b: bool)
    ensures
        b == is_control_code(c),
;

/// ASCII punctuation: the four ranges `!`..=`/`, `:`..=`@`, `[`..=`` ` ``
/// and `{`..=`~`.
pub open spec fn is_ascii_punctuation(c: char) -> bool {
    let code = c as u32;
    ||| 0x21 <= code <= 0x2F
    ||| 0x3A <= code <= 0x40
    ||| 0x5B <= code <= 0x60
    ||| 0x7B <= code <= 0x7E
}

/// Whether a character is ASCII punctuation.
pub fn is_ascii_punct(c: char) -> (b: bool)
    ensures
        b == is_ascii_punctuation(c),
{
    let code: u32 = c as u32;
    (0x21 <= code && code <= 0x2F) || (0x3A <= code && code <= 0x40) || (0x5B <= code && code
        <= 0x60) || (0x7B <= code && code <= 0x7E)
}

/// Whether a character's bidirectional class is strongly right-to-left:
/// `R` (right-to-left) or `AL` (Arabic letter).
pub open spec fn is_rtl(c: char) -> bool {
    bidi_group_of(c) is R || bidi_group_of(c) is AL
}

} // verus!
