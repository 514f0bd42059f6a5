//! Facts about the model of layout inference and remapping.

use super::char_class::{is_control_code, is_rtl};
use super::model::{
    all_key_codes, candidate_matches, candidate_ranks, candidate_score, coverage, inverse_of,
    is_best, is_best_among, is_choice, is_direction_neutral, is_key_for, is_matched, is_missed,
    keys_producing, match_count, miss_count, outranks, produces, scored_count, shift_char,
    shift_text, spec_char_points, text_direction,
};
use super::types::LayoutMapView;
use vstd::prelude::*;

verus! {

/// Every key code occurs among all key codes, at the index that is its own
/// value.
pub proof fn lemma_all_key_codes(key_code: u16)
    ensures
        all_key_codes().len() == 0x1_0000,
        all_key_codes()[key_code as int] == key_code,
        all_key_codes().contains(key_code),
{
    assert(all_key_codes()[key_code as int] == key_code);
}

/// The key codes listed for a character are exactly the codes of the keys
/// that produce that character alone.
pub proof fn lemma_keys_producing_members(table: Map<u16, Seq<char>>, c: char, key_code: u16)
    ensures
        keys_producing(table, c).contains(key_code) <==> produces(table, key_code, c),
{
    let listed = keys_producing(table, c);
    if listed.contains(key_code) {
        let i = choose|i: int| 0 <= i < listed.len() && listed[i] == key_code;
        all_key_codes().lemma_filter_pred(is_key_for(table, c), i);
    }
    if produces(table, key_code, c) {
        lemma_all_key_codes(key_code);
        all_key_codes().lemma_filter_contains_rev(is_key_for(table, c), key_code);
    }
}

/// A character has an entry in the reverse lookup exactly if its list of
/// key codes is not empty.
pub proof fn lemma_inverse_entry_nonempty(table: Map<u16, Seq<char>>, c: char)
    ensures
        inverse_of(table).contains_key(c) <==> keys_producing(table, c).len() > 0,
{
    let listed = keys_producing(table, c);
    if inverse_of(table).contains_key(c) {
        let key_code = choose|key_code: u16| produces(table, key_code, c);
        lemma_keys_producing_members(table, c, key_code);
    }
    if listed.len() > 0 {
        assert(listed.contains(listed[0]));
        lemma_keys_producing_members(table, c, listed[0]);
    }
}

/// Keeping some elements of a strictly ascending sequence leaves a strictly
/// ascending sequence, made of elements of the first.
pub proof fn lemma_filter_keeps_ascending(codes: Seq<u16>, keep: spec_fn(u16) -> bool)
    requires
        forall|i: int, j: int| 0 <= i < j < codes.len() ==> codes[i] < codes[j],
    ensures
        forall|i: int, j: int|
            0 <= i < j < codes.filter(keep).len() ==> codes.filter(keep)[i] < codes.filter(
                keep,
            )[j],
        forall|i: int|
            0 <= i < codes.filter(keep).len() ==> codes.contains(#[trigger] codes.filter(keep)[i]),
    decreases codes.len(),
{
    reveal(Seq::filter);
    if codes.len() > 0 {
        let front = codes.drop_last();
        let kept = front.filter(keep);
        lemma_filter_keeps_ascending(front, keep);
        assert forall|i: int| 0 <= i < kept.len() implies codes.contains(#[trigger] kept[i])
            && kept[i] < codes.last() by {
            assert(front.contains(kept[i]));
            let at = choose|at: int| 0 <= at < front.len() && front[at] == kept[i];
            assert(codes[at] == kept[i]);
            assert(codes[at] < codes[codes.len() - 1]);
        }
        assert(codes.contains(codes.last())) by {
            assert(codes[codes.len() - 1] == codes.last());
        }
    }
}

/// The key codes listed for a character are in strictly ascending order.
pub proof fn lemma_keys_producing_ascending(table: Map<u16, Seq<char>>, c: char)
    ensures
        forall|i: int, j: int|
            0 <= i < j < keys_producing(table, c).len() ==> keys_producing(table, c)[i]
                < keys_producing(table, c)[j],
{
    lemma_filter_keeps_ascending(all_key_codes(), is_key_for(table, c));
}

/// The first key code listed for a character is the lowest code of a key
/// that produces that character alone.
pub proof fn lemma_first_key_is_lowest(table: Map<u16, Seq<char>>, c: char, key_code: u16)
    requires
        produces(table, key_code, c),
    ensures
        inverse_of(table).contains_key(c),
        inverse_of(table)[c].len() > 0,
        produces(table, inverse_of(table)[c][0], c),
        inverse_of(table)[c][0] <= key_code,
{
    let listed = keys_producing(table, c);
    lemma_keys_producing_members(table, c, key_code);
    lemma_keys_producing_ascending(table, c);
    let at = choose|at: int| 0 <= at < listed.len() && listed[at] == key_code;
    assert(listed.contains(listed[0]));
    lemma_keys_producing_members(table, c, listed[0]);
}

/// A reverse lookup lists only keys that produce exactly one character: a
/// key that produces nothing, or several characters, is listed under no
/// character.
pub proof fn lemma_inverse_lists_single_character_keys(
    table: Map<u16, Seq<char>>,
    c: char,
    key_code: u16,
)
    requires
        inverse_of(table).contains_key(c),
        inverse_of(table)[c].contains(key_code),
    ensures
        table.contains_key(key_code),
        table[key_code].len() == 1,
        table[key_code] == seq![c],
{
    lemma_keys_producing_members(table, c, key_code);
}

/// The reverse lookup depends on the key table alone: layout maps with the
/// same key table have the same reverse lookup, whatever their labels and
/// directions, and so have lists of layout maps that agree table by table.
pub proof fn lemma_inverse_is_determined_by_table(
    first: Seq<LayoutMapView>,
    second: Seq<LayoutMapView>,
)
    requires
        first.len() == second.len(),
        forall|i: int| 0 <= i < first.len() ==> first[i].table == second[i].table,
    ensures
        forall|i: int|
            0 <= i < first.len() ==> inverse_of(first[i].table) == inverse_of(second[i].table),
{
}

/// Whether `at` is the index of the first character of `text` that is not
/// direction-neutral.
pub open spec fn is_first_strong(text: Seq<char>, at: int) -> bool {
    &&& 0 <= at < text.len()
    &&& !is_direction_neutral(text[at])
    &&& forall|before: int| 0 <= before < at ==> is_direction_neutral(#[trigger] text[before])
}

/// The direction of a text is that of its first character that is not
/// direction-neutral; a text has no direction exactly if all its characters
/// are direction-neutral.
pub proof fn lemma_text_direction_is_first_strong(text: Seq<char>)
    ensures
        match text_direction(text) {
            Some(rtl) => exists|at: int| is_first_strong(text, at) && rtl == is_rtl(text[at]),
            None => forall|i: int|
                0 <= i < text.len() ==> is_direction_neutral(#[trigger] text[i]),
        },
    decreases text.len(),
{
    if text.len() > 0 {
        if is_direction_neutral(text.first()) {
            let rest = text.drop_first();
            lemma_text_direction_is_first_strong(rest);
            match text_direction(rest) {
                Some(rtl) => {
                    let at = choose|at: int| is_first_strong(rest, at) && rtl == is_rtl(rest[at]);
                    assert forall|before: int| 0 <= before < at + 1 implies is_direction_neutral(
                        #[trigger] text[before],
                    ) by {
                        if before > 0 {
                            assert(text[before] == rest[before - 1]);
                        }
                    }
                    assert(is_first_strong(text, at + 1) && rtl == is_rtl(text[at + 1]));
                },
                None => {
                    assert forall|i: int| 0 <= i < text.len() implies is_direction_neutral(
                        #[trigger] text[i],
                    ) by {
                        if i > 0 {
                            assert(text[i] == rest[i - 1]);
                        }
                    }
                },
            }
        } else {
            assert(is_first_strong(text, 0));
        }
    }
}

/// One more character adds its points to the score and to the number of
/// characters explained: a text is scored character by character.
pub proof fn lemma_coverage_step(text: Seq<char>, c: char, inverse: Map<char, Seq<u16>>)
    ensures
        coverage(text.push(c), inverse) == coverage(text, inverse) + spec_char_points(
            is_control_code(c),
            inverse.contains_key(c),
        ).0,
        match_count(text.push(c), inverse) == match_count(text, inverse) + spec_char_points(
            is_control_code(c),
            inverse.contains_key(c),
        ).1,
{
    text.lemma_filter_len_push(is_matched(inverse), c);
    text.lemma_filter_len_push(is_missed(inverse), c);
}

/// A text without characters scores nothing and has no character
/// explained.
pub proof fn lemma_coverage_of_nothing(inverse: Map<char, Seq<u16>>)
    ensures
        coverage(Seq::<char>::empty(), inverse) == 0,
        match_count(Seq::<char>::empty(), inverse) == 0,
{
    Seq::<char>::empty().lemma_filter_len(is_matched(inverse));
    Seq::<char>::empty().lemma_filter_len(is_missed(inverse));
}

/// A lookup explains no more characters of a text than the text has.
pub proof fn lemma_match_count_at_most_len(text: Seq<char>, inverse: Map<char, Seq<u16>>)
    ensures
        match_count(text, inverse) <= text.len(),
{
    text.lemma_filter_len(is_matched(inverse));
}

/// The coverage score of a text lies between minus its length and twice its
/// length.
pub proof fn lemma_coverage_bounds(text: Seq<char>, inverse: Map<char, Seq<u16>>)
    ensures
        -text.len() <= coverage(text, inverse) <= 2 * text.len(),
{
    text.lemma_filter_len(is_matched(inverse));
    text.lemma_filter_len(is_missed(inverse));
}

/// Of the characters of a text that are not control characters, each is
/// either explained by a lookup or not: the two counts add up.
pub proof fn lemma_matches_and_misses(text: Seq<char>, inverse: Map<char, Seq<u16>>)
    ensures
        match_count(text, inverse) + miss_count(text, inverse) == scored_count(text),
        match_count(text, inverse) <= scored_count(text),
    decreases text.len(),
{
    reveal(Seq::filter);
    if text.len() > 0 {
        lemma_matches_and_misses(text.drop_last(), inverse);
    }
}

/// Two candidates with the same score for a text explain the same number
/// of its characters: each character explained moves the score by three,
/// and no two direction bonuses differ by a multiple of three. So the rank
/// of a candidate is decided by its score.
pub proof fn lemma_equal_scores_have_equal_matches(
    text: Seq<char>,
    a: LayoutMapView,
    b: LayoutMapView,
)
    requires
        candidate_score(text, a) == candidate_score(text, b),
    ensures
        candidate_matches(text, a) == candidate_matches(text, b),
{
    lemma_matches_and_misses(text, inverse_of(a.table));
    lemma_matches_and_misses(text, inverse_of(b.table));
}

/// There is at most one best rank: two ranks that are both best are the
/// same one.
pub proof fn lemma_best_unique(ranks: Seq<(int, nat)>, i: int, j: int)
    requires
        is_best(ranks, i),
        is_best(ranks, j),
    ensures
        i == j,
{
    if i < j {
        assert(outranks(ranks[j], ranks[i]));
        assert(!outranks(ranks[j], ranks[i]));
    }
    if j < i {
        assert(outranks(ranks[i], ranks[j]));
        assert(!outranks(ranks[i], ranks[j]));
    }
}

/// There is at most one candidate to choose, and there is one exactly if
/// the best candidate explains at least one character of the text.
pub proof fn lemma_choice_is_the_best_that_matches(ranks: Seq<(int, nat)>, best: int)
    requires
        is_best(ranks, best),
    ensures
        forall|i: int| is_choice(ranks, i) ==> i == best,
        is_choice(ranks, best) <==> ranks[best].1 > 0,
{
    assert forall|i: int| is_choice(ranks, i) implies i == best by {
        lemma_best_unique(ranks, i, best);
    }
}

/// Among any ranks, at least one, there is a best one.
pub proof fn lemma_best_exists(ranks: Seq<(int, nat)>)
    requires
        ranks.len() > 0,
    ensures
        exists|i: int| is_best(ranks, i),
{
    let best = lemma_best_among_exists(ranks, ranks.len() as int);
    assert(is_best(ranks, best));
}

/// Among the first `count` ranks, at least one, there is a best one.
pub proof fn lemma_best_among_exists(ranks: Seq<(int, nat)>, count: int) -> (best: int)
    requires
        0 < count <= ranks.len(),
    ensures
        is_best_among(ranks, best, count),
    decreases count,
{
    if count == 1 {
        0
    } else {
        let earlier = lemma_best_among_exists(ranks, count - 1);
        if outranks(ranks[count - 1], ranks[earlier]) {
            count - 1
        } else {
            earlier
        }
    }
}

/// For a text without characters no candidate is the one to choose,
/// whatever the candidates are.
pub proof fn lemma_empty_text_has_no_choice(candidates: Seq<LayoutMapView>, i: int)
    ensures
        !is_choice(candidate_ranks(Seq::<char>::empty(), candidates), i),
{
    if 0 <= i < candidates.len() {
        Seq::<char>::empty().lemma_filter_len(is_matched(inverse_of(candidates[i].table)));
    }
}

/// Shifting a text to another layout and back need not give the text back:
/// where a key produces several characters under the other layout, those
/// characters are not found again there.
pub proof fn lemma_round_trip_can_fail()
    ensures
        exists|text: Seq<char>, source: Map<u16, Seq<char>>, target: Map<u16, Seq<char>>|
            shift_text(
                #[trigger] shift_text(text, inverse_of(source), target),
                inverse_of(target),
                source,
            ) != text,
{
    let text = seq!['a'];
    let source = map![1u16 => seq!['a']];
    let target = map![1u16 => seq!['b', 'c']];
    let there = shift_text(text, inverse_of(source), target);
    let back = shift_text(there, inverse_of(target), source);

    assert(produces(source, 1u16, 'a'));
    lemma_first_key_is_lowest(source, 'a', 1u16);
    assert(inverse_of(source)['a'][0] == 1u16);
    assert(shift_char('a', inverse_of(source), target) == seq!['b', 'c']);
    let shifted_there = text.map_values(|c: char| shift_char(c, inverse_of(source), target));
    assert(shifted_there =~= seq![seq!['b', 'c']]);
    shifted_there.lemma_flatten_one_element();
    assert(there == seq!['b', 'c']);

    assert forall|c: char| !inverse_of(target).contains_key(c) by {
        if inverse_of(target).contains_key(c) {
            let key_code = choose|key_code: u16| produces(target, key_code, c);
            assert(target[key_code].len() == 1);
        }
    }
    let shifted_back = there.map_values(|c: char| shift_char(c, inverse_of(target), source));
    assert(shifted_back =~= seq![seq!['b']].push(seq!['c']));
    seq![seq!['b']].lemma_flatten_one_element();
    seq![seq!['b']].lemma_flatten_push(seq!['c']);
    assert(back =~= seq!['b', 'c']);
    assert(back.len() != text.len());
}

} // verus!
