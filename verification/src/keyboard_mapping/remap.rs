//! Layout inference and remapping.

use crate::text::{note_char_count_fits, single_char};
use super::char_class::{bidi_group, is_ascii_punct, is_rtl, BidiGroup};
use super::lemmas::{
    lemma_best_unique, lemma_coverage_bounds, lemma_coverage_of_nothing, lemma_coverage_step,
    lemma_inverse_entry_nonempty, lemma_match_count_at_most_len, lemma_matches_and_misses,
};
use super::model::{
    all_key_codes, candidate_ranks, candidate_views, coverage, inverse_of, is_best_among,
    is_choice, is_key_for, keys_producing, match_count, produces, scored_count, shift_char,
    shift_text, spec_char_direction, spec_char_points, spec_direction_bonus, text_direction,
};
use super::types::{InverseMap, KeyboardDirection, LayoutMap};
use vstd::prelude::*;
use vstd::string::StringExecFns;

verus! {

broadcast use vstd::string::group_string_axioms;

/// Whether a bidirectional class is strongly right-to-left: `R` or `AL`.
pub fn group_is_rtl(group: BidiGroup) -> (rtl: bool)
    ensures
        rtl == (group is R || group is AL),
{
    match group {
        BidiGroup::R | BidiGroup::AL => true,
        BidiGroup::Other => false,
    }
}

/// Whether `c` is a strongly right-to-left character: one whose
/// bidirectional class is `R` or `AL`.
pub fn is_rtl_char(c: char) -> (rtl: bool)
    ensures
        rtl == is_rtl(c),
{
    group_is_rtl(bidi_group(c))
}

/// What one character says of the direction of a text, given whether it is
/// white space, whether it is ASCII punctuation, and its bidirectional
/// class: nothing if it is white space or punctuation; else whether its
/// class is strongly right-to-left.
pub fn char_direction(white_space: bool, punctuation: bool, group: BidiGroup) -> (direction:
    Option<bool>)
    ensures
        direction == spec_char_direction(white_space, punctuation, group),
{
    if white_space || punctuation {
        None
    } else {
        Some(group_is_rtl(group))
    }
}

/// The direction of `text`, decided by its first character that is neither
/// white space nor ASCII punctuation; `None` if there is no such character.
pub fn text_starts_rtl(text: &str) -> (direction: Option<bool>)
    ensures
        direction == text_direction(text@),
{
    let text_chars = text.chars();
    assert(text@.skip(0) =~= text@);
    for ch in chars: text_chars
        invariant
            chars.seq() == text@,
            text_direction(text@) == text_direction(text@.skip(chars.index())),
    {
        assert(text@.skip(chars.index()).drop_first() =~= text@.skip(chars.index() + 1));
        match char_direction(ch.is_whitespace(), is_ascii_punct(ch), bidi_group(ch)) {
            Some(rtl) => {
                return Some(rtl);
            },
            None => {},
        }
    }
    None
}

/// The adjustment to a layout's score for a text of the given direction.
pub fn direction_bonus(text_dir_is_rtl: Option<bool>, layout_dir: KeyboardDirection) -> (bonus:
    i32)
    ensures
        bonus == spec_direction_bonus(text_dir_is_rtl, layout_dir),
        text_dir_is_rtl == Some(true) && layout_dir == KeyboardDirection::RTL ==> bonus == 5,
        text_dir_is_rtl == Some(false) && layout_dir == KeyboardDirection::LTR ==> bonus == 3,
        text_dir_is_rtl == Some(true) && layout_dir == KeyboardDirection::LTR ==> bonus == -2,
        text_dir_is_rtl == Some(false) && layout_dir == KeyboardDirection::RTL ==> bonus == -2,
        text_dir_is_rtl == None::<bool> ==> bonus == 0,
{
    match (text_dir_is_rtl, layout_dir) {
        (Some(true), KeyboardDirection::RTL) => 5,
        (Some(false), KeyboardDirection::LTR) => 3,
        (Some(true), KeyboardDirection::LTR) => -2,
        (Some(false), KeyboardDirection::RTL) => -2,
        _ => 0,
    }
}

/// What one character adds to the score and to the number of characters
/// explained, given whether it is a control character and whether it has an
/// entry in the lookup: nothing if it is a control character; two points
/// and one character if it has an entry; else one point less.
pub fn char_points(is_control: bool, has_entry: bool) -> (points: (i32, usize))
    ensures
        (points.0 as int, points.1 as nat) == spec_char_points(is_control, has_entry),
{
    if is_control {
        (0, 0)
    } else if has_entry {
        (2, 1)
    } else {
        (-1, 0)
    }
}

/// Scores how well `inverse` explains `text`: two points for every character
/// that has an entry, one point off for every character that has none;
/// control characters are passed over. Returns the score and the number of
/// characters that have an entry.
///
/// The score is an `i128` so that it cannot overflow on any string.
pub fn coverage_score(text: &str, inverse: &InverseMap) -> (result: (i128, usize))
    ensures
        result.0 == coverage(text@, inverse@),
        result.1 == match_count(text@, inverse@),
        result.1 <= scored_count(text@),
{
    note_char_count_fits(text);
    let mut score: i128 = 0;
    let mut matches: usize = 0;
    let text_chars = text.chars();
    assert(text@.take(0) =~= Seq::<char>::empty());
    proof {
        lemma_coverage_of_nothing(inverse@);
    }
    for ch in chars: text_chars
        invariant
            chars.seq() == text@,
            text@.len() <= usize::MAX,
            score == coverage(text@.take(chars.index()), inverse@),
            matches == match_count(text@.take(chars.index()), inverse@),
    {
        proof {
            let seen = text@.take(chars.index());
            assert(text@.take(chars.index() + 1) =~= seen.push(ch));
            lemma_coverage_step(seen, ch, inverse@);
            lemma_coverage_bounds(seen, inverse@);
            lemma_match_count_at_most_len(seen, inverse@);
        }
        let (points, matched) = char_points(ch.is_control(), inverse.contains_key(&ch));
        score += points as i128;
        matches += matched;
    }
    proof {
        assert(text@.take(text@.len() as int) =~= text@);
        lemma_matches_and_misses(text@, inverse@);
    }
    (score, matches)
}

/// The key codes below `bound` that produce exactly `c`, in ascending order.
spec fn keys_producing_below(table: Map<u16, Seq<char>>, c: char, bound: int) -> Seq<u16> {
    all_key_codes().take(bound).filter(is_key_for(table, c))
}

/// Looking at one more key code appends it to the list of the character it
/// produces alone, and changes no other list.
proof fn lemma_keys_producing_step(table: Map<u16, Seq<char>>, c: char, key_code: u16)
    ensures
        keys_producing_below(table, c, key_code + 1) == if produces(table, key_code, c) {
            keys_producing_below(table, c, key_code as int).push(key_code)
        } else {
            keys_producing_below(table, c, key_code as int)
        },
{
    let below = all_key_codes().take(key_code as int);
    assert(all_key_codes().take(key_code + 1) =~= below.push(key_code));
    below.lemma_filter_push(key_code, is_key_for(table, c));
}

/// Builds the reverse lookup of a layout's key table: for every character
/// that some key produces alone, the codes of those keys in ascending order.
/// Keys that produce nothing, or more than one character, are left out.
pub fn invert_layout_map(layout_map: &LayoutMap) -> (inverse: InverseMap)
    ensures
        inverse@ == inverse_of(layout_map@.table),
{
    let ghost table = layout_map@.table;
    let mut inverse = InverseMap::new();
    let mut code: u32 = 0;
    assert(all_key_codes().take(0) =~= Seq::<u16>::empty());
    while code < 0x1_0000
        invariant
            code <= 0x1_0000,
            table == layout_map@.table,
            forall|c: char|
                inverse@.contains_key(c) <==> (#[trigger] keys_producing_below(
                    table,
                    c,
                    code as int,
                )).len() > 0,
            forall|c: char|
                inverse@.contains_key(c) ==> inverse@[c] == #[trigger] keys_producing_below(
                    table,
                    c,
                    code as int,
                ),
        decreases 0x1_0000 - code,
    {
        let key_code = code as u16;
        let mut produced: Option<char> = None;
        match layout_map.map.get(&key_code) {
            Some(output) => {
                produced = single_char(output.as_str());
            },
            None => {},
        }
        assert(forall|c: char| produces(table, key_code, c) <==> produced == Some(c)) by {
            if let Some(only) = produced {
                assert(produces(table, key_code, only));
                assert forall|c: char| produces(table, key_code, c) implies c == only by {
                    assert(seq![c][0] == seq![only][0]);
                }
            }
        }
        match produced {
            Some(c) => {
                inverse.push_key(c, key_code);
            },
            None => {},
        }
        proof {
            assert forall|c: char|
                inverse@.contains_key(c) <==> (#[trigger] keys_producing_below(
                    table,
                    c,
                    code + 1,
                )).len() > 0 by {
                lemma_keys_producing_step(table, c, key_code);
            }
            assert forall|c: char| inverse@.contains_key(c) implies inverse@[c]
                == #[trigger] keys_producing_below(table, c, code + 1) by {
                lemma_keys_producing_step(table, c, key_code);
            }
        }
        code += 1;
    }
    proof {
        assert(all_key_codes().take(0x1_0000) =~= all_key_codes());
        assert forall|c: char| inverse@.contains_key(c) == inverse_of(table).contains_key(c) by {
            lemma_inverse_entry_nonempty(table, c);
            assert(keys_producing_below(table, c, 0x1_0000) == keys_producing(table, c));
        }
        assert forall|c: char| inverse@.contains_key(c) implies inverse@[c] == inverse_of(
            table,
        )[c] by {
            assert(keys_producing_below(table, c, 0x1_0000) == keys_producing(table, c));
        }
        assert(inverse@ =~= inverse_of(table));
    }
    inverse
}

/// Builds the reverse lookup of each layout map, in the order given.
pub fn invert_layout_maps(layout_maps: &[LayoutMap]) -> (inverses: Vec<InverseMap>)
    ensures
        inverses@.len() == layout_maps@.len(),
        forall|i: int|
            0 <= i < layout_maps@.len() ==> (#[trigger] inverses@[i])@ == inverse_of(
                layout_maps@[i]@.table,
            ),
{
    let mut inverses: Vec<InverseMap> = Vec::new();
    let mut idx: usize = 0;
    while idx < layout_maps.len()
        invariant
            idx <= layout_maps@.len(),
            inverses@.len() == idx,
            forall|i: int|
                0 <= i < idx ==> (#[trigger] inverses@[i])@ == inverse_of(layout_maps@[i]@.table),
        decreases layout_maps@.len() - idx,
    {
        inverses.push(invert_layout_map(&layout_maps[idx]));
        idx += 1;
    }
    inverses
}

/// Ranks as mathematical pairs of a score and a number of characters.
pub open spec fn ranks_of(ranks: Seq<(i128, usize)>) -> Seq<(int, nat)> {
    ranks.map_values(|rank: (i128, usize)| (rank.0 as int, rank.1 as nat))
}

/// Picks the candidate to choose, given the rank of each candidate: its
/// score, and the number of characters it explains.
///
/// The candidate with the highest score wins; of two with the same score,
/// the one that explains more characters; of two equal in both, the
/// earlier. If the winner explains no character, or there is no candidate,
/// the result is `None`.
pub fn pick_best(ranks: &[(i128, usize)]) -> (choice: Option<usize>)
    ensures
        match choice {
            Some(i) => is_choice(ranks_of(ranks@), i as int),
            None => forall|i: int| !is_choice(ranks_of(ranks@), i),
        },
{
    let ghost all = ranks_of(ranks@);
    let mut best_idx: Option<usize> = None;
    let mut best_score: i128 = 0;
    let mut best_matches: usize = 0;

    let mut idx: usize = 0;
    while idx < ranks.len()
        invariant
            idx <= ranks@.len(),
            all == ranks_of(ranks@),
            best_idx is None <==> idx == 0,
            best_idx matches Some(best) ==> {
                &&& is_best_among(all, best as int, idx as int)
                &&& best_score == all[best as int].0
                &&& best_matches == all[best as int].1
            },
        decreases ranks@.len() - idx,
    {
        let (score, matches) = ranks[idx];
        let better = match best_idx {
            None => true,
            Some(_) => score > best_score || (score == best_score && matches > best_matches),
        };
        if better {
            best_score = score;
            best_idx = Some(idx);
            best_matches = matches;
        }
        idx += 1;
    }

    match best_idx {
        Some(best) => {
            if best_matches == 0 {
                assert forall|i: int| !is_choice(all, i) by {
                    if is_choice(all, i) {
                        lemma_best_unique(all, i, best as int);
                    }
                }
                None
            } else {
                Some(best)
            }
        },
        None => None,
    }
}

/// Picks the layout that most plausibly produced `text`.
///
/// Every candidate is scored by how well its keys explain the text, adjusted
/// by how its direction agrees with the direction of the text. The candidate
/// with the highest score wins; of two with the same score, the one that
/// explains more characters; of two equal in both, the earlier. If the
/// winner explains no character of the text, or there is no candidate, the
/// result is `None`.
pub fn get_text_leyaout_map<'a>(text: &'a str, layout_maps: &'a [LayoutMap]) -> (chosen: Option<
    &'a LayoutMap,
>)
    ensures
        match chosen {
            Some(layout_map) => exists|i: int|
                is_choice(candidate_ranks(text@, candidate_views(layout_maps@)), i) && *layout_map
                    == layout_maps@[i],
            None => forall|i: int|
                !is_choice(candidate_ranks(text@, candidate_views(layout_maps@)), i),
        },
        layout_maps@.len() == 0 ==> chosen is None,
        text@.len() == 0 ==> chosen is None,
{
    note_char_count_fits(text);
    let text_dir = text_starts_rtl(text);
    let inverses = invert_layout_maps(layout_maps);
    let ghost all = candidate_ranks(text@, candidate_views(layout_maps@));

    let mut ranks: Vec<(i128, usize)> = Vec::new();
    let mut idx: usize = 0;
    assert(ranks_of(ranks@) =~= all.take(0));
    while idx < layout_maps.len()
        invariant
            idx <= layout_maps@.len(),
            text@.len() <= usize::MAX,
            all == candidate_ranks(text@, candidate_views(layout_maps@)),
            text_dir == text_direction(text@),
            inverses@.len() == layout_maps@.len(),
            forall|i: int|
                0 <= i < layout_maps@.len() ==> (#[trigger] inverses@[i])@ == inverse_of(
                    layout_maps@[i]@.table,
                ),
            ranks_of(ranks@) == all.take(idx as int),
        decreases layout_maps@.len() - idx,
    {
        let (coverage, matches) = coverage_score(text, &inverses[idx]);
        proof {
            lemma_coverage_bounds(text@, inverses@[idx as int]@);
        }
        let score = coverage + direction_bonus(text_dir, layout_maps[idx].layout.direction) as i128;
        let ghost earlier = ranks_of(ranks@);
        ranks.push((score, matches));
        assert(ranks_of(ranks@) =~= earlier.push((score as int, matches as nat)));
        assert(all.take(idx + 1) =~= all.take(idx as int).push(all[idx as int]));
        idx += 1;
    }
    assert(all.take(all.len() as int) =~= all);

    match pick_best(ranks.as_slice()) {
        Some(best) => {
            proof {
                lemma_match_count_at_most_len(
                    text@,
                    inverse_of(candidate_views(layout_maps@)[best as int].table),
                );
            }
            Some(&layout_maps[best])
        },
        None => None,
    }
}

/// Re-renders `text` as if the keys that produce it under `curent_layout`
/// had been pressed under `target_layout`.
///
/// Each character that some key of `curent_layout` produces alone is
/// replaced by what the lowest such key produces under `target_layout`,
/// provided that is not empty. Every other character is kept as it is.
pub fn shift_text_language(
    text: &str,
    curent_layout: &LayoutMap,
    target_layout: &LayoutMap,
) -> (shifted: String)
    ensures
        shifted@ == shift_text(
            text@,
            inverse_of(curent_layout@.table),
            target_layout@.table,
        ),
{
    let inverse_current = invert_layout_map(curent_layout);
    let ghost inverse = inverse_current@;
    let ghost target = target_layout@.table;
    let ghost shift = |c: char| shift_char(c, inverse, target);
    let mut shifted = String::new();
    let text_chars = text.chars();
    assert(text@.take(0) =~= Seq::<char>::empty());
    assert(shift_text(Seq::<char>::empty(), inverse, target) =~= Seq::<char>::empty());
    for ch in chars: text_chars
        invariant
            chars.seq() == text@,
            inverse == inverse_current@,
            target == target_layout@.table,
            shift == (|c: char| shift_char(c, inverse, target)),
            shifted@ == shift_text(text@.take(chars.index()), inverse, target),
    {
        proof {
            let seen = text@.take(chars.index());
            assert(text@.take(chars.index() + 1) =~= seen.push(ch));
            assert(seen.push(ch).map_values(shift) =~= seen.map_values(shift).push(shift(ch)));
            seen.map_values(shift).lemma_flatten_push(shift(ch));
        }
        let mut replacement: Option<&String> = None;
        match inverse_current.get(&ch) {
            Some(key_codes) => {
                if key_codes.len() > 0 {
                    match target_layout.map.get(&key_codes[0]) {
                        Some(output) => {
                            if !output.as_str().is_empty() {
                                replacement = Some(output);
                            }
                        },
                        None => {},
                    }
                }
            },
            None => {},
        }
        match replacement {
            Some(output) => {
                shifted.append(output.as_str());
            },
            None => {
                shifted.push(ch);
                assert(shift(ch) =~= seq![ch]);
                assert(shifted@ =~= shift_text(text@.take(chars.index()), inverse, target)
                    + seq![ch]);
            },
        }
    }
    assert(text@.take(text@.len() as int) =~= text@);
    shifted
}

} // verus!
