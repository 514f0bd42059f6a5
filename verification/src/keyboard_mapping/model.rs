//! The mathematical model of layout inference and remapping: what each
//! operation computes, stated over sequences of characters and maps.

use super::char_class::{
    is_ascii_punctuation, is_control_code, is_rtl, is_white_space, BidiGroup,
};
use super::types::{KeyboardDirection, LayoutMap, LayoutMapView};
use vstd::prelude::*;

verus! {

/// Every key code, in ascending order.
pub open spec fn all_key_codes() -> Seq<u16> {
    Seq::new(0x1_0000, |i: int| i as u16)
}

/// Whether key `key_code` of `table` produces exactly the one character `c`.
/// A key that produces nothing, or more than one character, produces no
/// character in this sense.
pub open spec fn produces(table: Map<u16, Seq<char>>, key_code: u16, c: char) -> bool {
    table.contains_key(key_code) && table[key_code] =~= seq![c]
}

/// The keys of `table` that produce exactly `c`.
pub open spec fn is_key_for(table: Map<u16, Seq<char>>, c: char) -> spec_fn(u16) -> bool {
    |key_code: u16| produces(table, key_code, c)
}

/// The key codes that produce exactly `c`, in ascending order.
pub open spec fn keys_producing(table: Map<u16, Seq<char>>, c: char) -> Seq<u16> {
    all_key_codes().filter(is_key_for(table, c))
}

/// The reverse lookup of a key table: each character that some key produces
/// alone, with the codes of the keys that do so in ascending order.
pub open spec fn inverse_of(table: Map<u16, Seq<char>>) -> Map<char, Seq<u16>> {
    Map::new(
        |c: char| exists|key_code: u16| produces(table, key_code, c),
        |c: char| keys_producing(table, c),
    )
}

/// Characters that say nothing about the direction of a text: white space
/// and ASCII punctuation.
pub open spec fn is_direction_neutral(c: char) -> bool {
    is_white_space(c) || is_ascii_punctuation(c)
}

/// The direction of a text, read off its first character that is not
/// direction-neutral: `Some(true)` if that character is right-to-left,
/// `Some(false)` if it is not, `None` if the text has no such character.
pub open spec fn text_direction(text: Seq<char>) -> Option<bool>
    decreases text.len(),
{
    if text.len() == 0 {
        None
    } else if is_direction_neutral(text.first()) {
        text_direction(text.drop_first())
    } else {
        Some(is_rtl(text.first()))
    }
}

/// The adjustment that the direction of a text makes to the score of a
/// layout: agreement is rewarded, right-to-left agreement most, disagreement
/// is penalised, and a text without direction changes nothing.
pub open spec fn spec_direction_bonus(
    text_is_rtl: Option<bool>,
    layout_direction: KeyboardDirection,
) -> int {
    match (text_is_rtl, layout_direction) {
        (Some(true), KeyboardDirection::RTL) => 5,
        (Some(false), KeyboardDirection::LTR) => 3,
        (Some(true), KeyboardDirection::LTR) => -2,
        (Some(false), KeyboardDirection::RTL) => -2,
        (None, _) => 0,
    }
}

/// The characters that a lookup explains: not control characters, and with
/// an entry in `inverse`.
pub open spec fn is_matched(inverse: Map<char, Seq<u16>>) -> spec_fn(char) -> bool {
    |c: char| !is_control_code(c) && inverse.contains_key(c)
}

/// The characters that a lookup fails to explain: not control characters,
/// and without an entry in `inverse`.
pub open spec fn is_missed(inverse: Map<char, Seq<u16>>) -> spec_fn(char) -> bool {
    |c: char| !is_control_code(c) && !inverse.contains_key(c)
}

/// The characters that scoring looks at: all but control characters.
pub open spec fn is_scored() -> spec_fn(char) -> bool {
    |c: char| !is_control_code(c)
}

/// How many characters of `text` the lookup explains.
pub open spec fn match_count(text: Seq<char>, inverse: Map<char, Seq<u16>>) -> nat {
    text.filter(is_matched(inverse)).len()
}

/// How many characters of `text` the lookup fails to explain.
pub open spec fn miss_count(text: Seq<char>, inverse: Map<char, Seq<u16>>) -> nat {
    text.filter(is_missed(inverse)).len()
}

/// How many characters of `text` are not control characters.
pub open spec fn scored_count(text: Seq<char>) -> nat {
    text.filter(is_scored()).len()
}

/// The coverage score of a text under a lookup: two points for every
/// character explained, one point off for every character not explained.
pub open spec fn coverage(text: Seq<char>, inverse: Map<char, Seq<u16>>) -> int {
    2 * match_count(text, inverse) - miss_count(text, inverse)
}

/// The views of a list of layout maps, in order.
pub open spec fn candidate_views(layout_maps: Seq<LayoutMap>) -> Seq<LayoutMapView> {
    layout_maps.map_values(|layout_map: LayoutMap| layout_map@)
}

/// The score of a candidate layout for a text: the coverage of the text
/// under the reverse lookup of the layout's key table, adjusted by how the
/// direction of the text agrees with the direction of the layout.
pub open spec fn candidate_score(text: Seq<char>, candidate: LayoutMapView) -> int {
    coverage(text, inverse_of(candidate.table)) + spec_direction_bonus(
        text_direction(text),
        candidate.layout.direction,
    )
}

/// How many characters of a text a candidate layout explains.
pub open spec fn candidate_matches(text: Seq<char>, candidate: LayoutMapView) -> nat {
    match_count(text, inverse_of(candidate.table))
}

/// The rank of a candidate layout for a text: its score, and how many
/// characters of the text it explains.
pub open spec fn candidate_rank(text: Seq<char>, candidate: LayoutMapView) -> (int, nat) {
    (candidate_score(text, candidate), candidate_matches(text, candidate))
}

/// The ranks of candidate layouts for a text, in the order of the
/// candidates.
pub open spec fn candidate_ranks(text: Seq<char>, candidates: Seq<LayoutMapView>) -> Seq<
    (int, nat),
> {
    candidates.map_values(|candidate: LayoutMapView| candidate_rank(text, candidate))
}

/// Whether rank `a` is strictly above rank `b`: by a higher score, or by
/// the same score and more characters explained.
pub open spec fn outranks(a: (int, nat), b: (int, nat)) -> bool {
    a.0 > b.0 || (a.0 == b.0 && a.1 > b.1)
}

/// Whether rank `i` is the best of the first `count` ranks: it is strictly
/// above every rank before it, and no rank after it is strictly above it.
/// Among equal ranks this is the first.
pub open spec fn is_best_among(ranks: Seq<(int, nat)>, i: int, count: int) -> bool {
    &&& 0 <= i < count <= ranks.len()
    &&& forall|j: int| 0 <= j < i ==> outranks(ranks[i], #[trigger] ranks[j])
    &&& forall|j: int| i < j < count ==> !outranks(#[trigger] ranks[j], ranks[i])
}

/// Whether rank `i` is the best of all ranks.
pub open spec fn is_best(ranks: Seq<(int, nat)>, i: int) -> bool {
    is_best_among(ranks, i, ranks.len() as int)
}

/// Whether candidate `i` is the one to choose: its rank is the best of all,
/// and it explains at least one character.
pub open spec fn is_choice(ranks: Seq<(int, nat)>, i: int) -> bool {
    is_best(ranks, i) && ranks[i].1 > 0
}

/// What one character adds to the score and to the number of characters
/// explained: nothing if it is a control character; two points and one
/// character if it has an entry in the lookup; else one point less.
pub open spec fn spec_char_points(is_control: bool, has_entry: bool) -> (int, nat) {
    if is_control {
        (0, 0)
    } else if has_entry {
        (2, 1)
    } else {
        (-1, 0)
    }
}

/// What one character says of the direction of a text: nothing if it is
/// white space or ASCII punctuation; else whether its bidirectional class
/// is strongly right-to-left.
pub open spec fn spec_char_direction(
    white_space: bool,
    punctuation: bool,
    group: BidiGroup,
) -> Option<bool> {
    if white_space || punctuation {
        None
    } else {
        Some(group is R || group is AL)
    }
}

/// What a character becomes when text typed under one layout is read as
/// typed under another: if the character has an entry in the reverse lookup
/// of the first layout, and the first key of that entry produces something
/// under the second layout, then what that key produces there; otherwise
/// the character itself.
pub open spec fn shift_char(
    c: char,
    inverse: Map<char, Seq<u16>>,
    target: Map<u16, Seq<char>>,
) -> Seq<char> {
    if inverse.contains_key(c) && inverse[c].len() > 0 && target.contains_key(inverse[c][0])
        && target[inverse[c][0]].len() > 0 {
        target[inverse[c][0]]
    } else {
        seq![c]
    }
}

/// A text with every character shifted, in order.
pub open spec fn shift_text(
    text: Seq<char>,
    inverse: Map<char, Seq<u16>>,
    target: Map<u16, Seq<char>>,
) -> Seq<char> {
    text.map_values(|c: char| shift_char(c, inverse, target)).flatten()
}

} // verus!
