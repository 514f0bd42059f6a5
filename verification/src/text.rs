//! Small operations on strings and their characters.

use vstd::prelude::*;
use vstd::utf8::encode_utf8;

verus! {

broadcast use vstd::string::group_string_axioms;

/// `String::push` appends the given character to the end of the string.
pub assume_specification[ String::push ](text: &mut String, c: char)
    ensures
        final(text)@ == old(text)@.push(c),
;

/// The lowercase equivalent of a text, as `str::to_lowercase` computes it
/// from the Unicode case mappings.
pub uninterp spec fn lowercase_of(text: Seq<char>) -> Seq<char>;

/// `str::to_lowercase` returns the lowercase equivalent of the string as a
/// new string; the result depends on the characters of the string alone.
pub assume_specification[ str::to_lowercase ](text: &str) -> (lowered: String)
    ensures
        lowered@ == lowercase_of(text@),
;

/// A text has at least as many bytes as characters.
pub proof fn lemma_char_count_at_most_byte_count(chars: Seq<char>)
    ensures
        chars.len() <= encode_utf8(chars).len(),
    decreases chars.len(),
{
    if chars.len() > 0 {
        lemma_char_count_at_most_byte_count(chars.drop_first());
    }
}

/// Establishes that the characters of a string can be counted in a `usize`:
/// its bytes can, and there are no more characters than bytes.
pub fn note_char_count_fits(text: &str)
    ensures
        text@.len() <= usize::MAX,
{
    let bytes = text.as_bytes();
    proof {
        lemma_char_count_at_most_byte_count(text@);
        vstd::slice::axiom_spec_len(bytes);
    }
}

/// The character that `text` consists of, if it consists of exactly one.
pub fn single_char(text: &str) -> (only: Option<char>)
    ensures
        match only {
            Some(c) => text@ == seq![c],
            None => text@.len() != 1,
        },
{
    let mut chars = text.chars();
    match chars.next() {
        None => None,
        Some(first) => {
            match chars.next() {
                None => {
                    assert(text@ =~= seq![first]);
                    Some(first)
                },
                Some(_) => None,
            }
        },
    }
}

/// The characters of a string, in a vector.
pub fn to_chars(text: &str) -> (chars: Vec<char>)
    ensures
        chars@ == text@,
{
    let mut chars: Vec<char> = Vec::new();
    let text_chars = text.chars();
    for ch in iter: text_chars
        invariant
            iter.seq() == text@,
            chars@ == text@.take(iter.index()),
    {
        assert(text@.take(iter.index() + 1) =~= text@.take(iter.index()).push(ch));
        chars.push(ch);
    }
    assert(text@.take(text@.len() as int) =~= text@);
    chars
}

/// Whether `needle` occurs in `text` as a run of consecutive characters.
pub open spec fn occurs_in(needle: Seq<char>, text: Seq<char>) -> bool {
    exists|at: int| occurs_at(needle, text, at)
}

/// Whether `needle` occurs in `text` starting at index `at`.
pub open spec fn occurs_at(needle: Seq<char>, text: Seq<char>, at: int) -> bool {
    0 <= at <= text.len() - needle.len() && text.subrange(at, at + needle.len()) =~= needle
}

/// Whether `needle` occurs in `text` starting at index `at`.
pub fn has_at(needle: &[char], text: &[char], at: usize) -> (found: bool)
    ensures
        found == occurs_at(needle@, text@, at as int),
{
    if needle.len() > text.len() || at > text.len() - needle.len() {
        return false;
    }
    let mut i: usize = 0;
    while i < needle.len()
        invariant
            i <= needle@.len(),
            at + needle@.len() <= text@.len() <= usize::MAX,
            forall|j: int| 0 <= j < i ==> text@[at + j] == needle@[j],
        decreases needle@.len() - i,
    {
        if text[at + i] != needle[i] {
            assert(text@.subrange(at as int, at + needle@.len())[i as int] != needle@[i as int]);
            return false;
        }
        i += 1;
    }
    true
}

/// Whether `needle` occurs in `text`.
pub fn contains_chars(needle: &[char], text: &[char]) -> (found: bool)
    ensures
        found == occurs_in(needle@, text@),
{
    if needle.len() > text.len() {
        return false;
    }
    let last = text.len() - needle.len();
    let mut at: usize = 0;
    let mut found = has_at(needle, text, 0);
    while !found && at < last
        invariant
            at <= last == text@.len() - needle@.len(),
            found == occurs_at(needle@, text@, at as int),
            forall|earlier: int| 0 <= earlier < at ==> !occurs_at(needle@, text@, earlier),
        decreases last - at,
    {
        at += 1;
        found = has_at(needle, text, at);
    }
    found
}

/// The pieces of a text between separators, in order. A text without
/// separators is one piece; a separator at the start or the end, or two
/// separators in a row, give an empty piece.
pub open spec fn split(text: Seq<char>, separators: Seq<char>) -> Seq<Seq<char>>
    decreases text.len(),
{
    if text.len() == 0 {
        seq![Seq::empty()]
    } else {
        let before = split(text.drop_last(), separators);
        if separators.contains(text.last()) {
            before.push(Seq::empty())
        } else {
            before.drop_last().push(before.last().push(text.last()))
        }
    }
}

/// The characters of a string that may be absent.
pub open spec fn optional_text(text: Option<String>) -> Option<Seq<char>> {
    match text {
        Some(present) => Some(present@),
        None => None,
    }
}

/// The views of a list of strings.
pub open spec fn texts_of(strings: Seq<String>) -> Seq<Seq<char>> {
    strings.map_values(|text: String| text@)
}

/// Whether `c` is one of `candidates`.
pub fn is_one_of(c: char, candidates: &[char]) -> (found: bool)
    ensures
        found == candidates@.contains(c),
{
    let mut i: usize = 0;
    while i < candidates.len()
        invariant
            i <= candidates@.len(),
            forall|j: int| 0 <= j < i ==> candidates@[j] != c,
        decreases candidates@.len() - i,
    {
        if candidates[i] == c {
            return true;
        }
        i += 1;
    }
    false
}

/// Splits a text at every character that is one of `separators`.
pub fn split_on(text: &str, separators: &[char]) -> (pieces: Vec<String>)
    ensures
        texts_of(pieces@) == split(text@, separators@),
{
    let mut pieces: Vec<String> = Vec::new();
    let mut current = String::new();
    let text_chars = text.chars();
    assert(text@.take(0) =~= Seq::<char>::empty());
    assert(texts_of(pieces@).push(current@) =~= seq![Seq::<char>::empty()]);
    for ch in iter: text_chars
        invariant
            iter.seq() == text@,
            texts_of(pieces@).push(current@) == split(text@.take(iter.index()), separators@),
    {
        proof {
            let seen = text@.take(iter.index());
            assert(text@.take(iter.index() + 1).drop_last() =~= seen);
            assert(texts_of(pieces@).push(current@).drop_last() =~= texts_of(pieces@));
        }
        if is_one_of(ch, separators) {
            let ghost finished = current@;
            let ghost earlier = texts_of(pieces@);
            pieces.push(current);
            current = String::new();
            assert(texts_of(pieces@) =~= earlier.push(finished));
        } else {
            current.push(ch);
        }
    }
    assert(text@.take(text@.len() as int) =~= text@);
    let ghost earlier = texts_of(pieces@);
    let ghost finished = current@;
    pieces.push(current);
    assert(texts_of(pieces@) =~= earlier.push(finished));
    pieces
}

/// The pieces joined, with `separator` between every two.
pub open spec fn join(pieces: Seq<Seq<char>>, separator: Seq<char>) -> Seq<char>
    decreases pieces.len(),
{
    if pieces.len() == 0 {
        Seq::empty()
    } else if pieces.len() == 1 {
        pieces[0]
    } else {
        join(pieces.drop_last(), separator) + separator + pieces.last()
    }
}

/// Joins strings, with `separator` between every two.
pub fn join_with(pieces: &[String], separator: &str) -> (joined: String)
    ensures
        joined@ == join(texts_of(pieces@), separator@),
{
    let mut joined = String::new();
    let mut i: usize = 0;
    assert(texts_of(pieces@).take(0) =~= Seq::<Seq<char>>::empty());
    while i < pieces.len()
        invariant
            i <= pieces@.len(),
            joined@ == join(texts_of(pieces@).take(i as int), separator@),
        decreases pieces@.len() - i,
    {
        proof {
            let next = texts_of(pieces@).take(i + 1);
            assert(next.drop_last() =~= texts_of(pieces@).take(i as int));
            assert(next.last() == pieces@[i as int]@);
            if i == 0 {
                assert(joined@ + pieces@[i as int]@ =~= pieces@[i as int]@);
            }
        }
        if i > 0 {
            joined.append(separator);
        }
        joined.append(pieces[i].as_str());
        i += 1;
    }
    assert(texts_of(pieces@).take(pieces@.len() as int) =~= texts_of(pieces@));
    joined
}

/// Whether one of `list` has the characters of `item`.
pub fn contains_text(list: &[String], item: &String) -> (found: bool)
    ensures
        found == texts_of(list@).contains(item@),
{
    let mut i: usize = 0;
    while i < list.len()
        invariant
            i <= list@.len(),
            forall|j: int| 0 <= j < i ==> texts_of(list@)[j] != item@,
        decreases list@.len() - i,
    {
        if list[i] == *item {
            assert(texts_of(list@)[i as int] == item@);
            return true;
        }
        i += 1;
    }
    false
}

/// A text with every carriage return and line feed that follow one another
/// replaced by the line feed alone.
pub open spec fn crlf_to_lf(text: Seq<char>) -> Seq<char>
    decreases text.len(),
{
    if text.len() == 0 {
        text
    } else if text.len() >= 2 && text[0] == '\r' && text[1] == '\n' {
        seq!['\n'] + crlf_to_lf(text.skip(2))
    } else {
        seq![text[0]] + crlf_to_lf(text.skip(1))
    }
}

/// Replaces every carriage return and line feed that follow one another by
/// the line feed alone.
pub fn normalize_newlines(text: &str) -> (normalized: String)
    ensures
        normalized@ == crlf_to_lf(text@),
{
    let chars = to_chars(text);
    let mut normalized = String::new();
    let mut i: usize = 0;
    assert(chars@.skip(0) =~= chars@);
    while i < chars.len()
        invariant
            i <= chars@.len(),
            chars@ == text@,
            crlf_to_lf(text@) == normalized@ + crlf_to_lf(chars@.skip(i as int)),
        decreases chars@.len() - i,
    {
        let ghost rest = chars@.skip(i as int);
        if chars[i] == '\r' && i + 1 < chars.len() && chars[i + 1] == '\n' {
            assert(rest.skip(2) =~= chars@.skip(i + 2));
            assert(normalized@.push('\n') + crlf_to_lf(chars@.skip(i + 2)) =~= normalized@ + (
            seq!['\n'] + crlf_to_lf(chars@.skip(i + 2))));
            normalized.push('\n');
            i += 2;
        } else {
            assert(rest.skip(1) =~= chars@.skip(i + 1));
            assert(normalized@.push(rest[0]) + crlf_to_lf(chars@.skip(i + 1)) =~= normalized@ + (
            seq![rest[0]] + crlf_to_lf(chars@.skip(i + 1))));
            normalized.push(chars[i]);
            i += 1;
        }
    }
    assert(normalized@ + Seq::<char>::empty() =~= normalized@);
    normalized
}

/// The character that writes the digit `digit`, for digits below sixteen:
/// `0` to `9`, then `A` to `F`.
pub open spec fn digit_char(digit: int) -> char {
    if digit < 10 {
        (0x30 + digit) as char
    } else {
        (0x37 + digit) as char
    }
}

/// The digits of `n` in base ten, most significant first, without leading
/// zeros; zero is written `0`.
pub open spec fn decimal_digits(n: nat) -> Seq<char>
    decreases n,
{
    if n < 10 {
        seq![digit_char(n as int)]
    } else {
        decimal_digits(n / 10).push(digit_char((n % 10) as int))
    }
}

/// The character that writes a digit below sixteen.
pub fn digit_to_char(digit: u8) -> (c: char)
    requires
        digit < 16,
    ensures
        c == digit_char(digit as int),
{
    if digit < 10 {
        (0x30 + digit) as char
    } else {
        (0x37 + digit) as char
    }
}

/// Writes `n` in base ten.
pub fn decimal_string(n: u32) -> (text: String)
    ensures
        text@ == decimal_digits(n as nat),
{
    let mut reversed: Vec<char> = Vec::new();
    let mut rest: u32 = n;
    while rest >= 10
        invariant
            decimal_digits(n as nat) == decimal_digits(rest as nat) + reversed@.reverse(),
        decreases rest,
    {
        let digit = digit_to_char((rest % 10) as u8);
        proof {
            let shorter = decimal_digits((rest / 10) as nat);
            assert(decimal_digits(rest as nat) == shorter.push(digit));
            assert(reversed@.push(digit).reverse() =~= seq![digit] + reversed@.reverse());
            assert(shorter.push(digit) + reversed@.reverse() =~= shorter + (seq![digit]
                + reversed@.reverse()));
        }
        reversed.push(digit);
        rest = rest / 10;
    }
    let mut text = String::new();
    text.push(digit_to_char(rest as u8));
    let mut remaining: usize = reversed.len();
    while remaining > 0
        invariant
            remaining <= reversed@.len(),
            decimal_digits(n as nat) == decimal_digits(rest as nat) + reversed@.reverse(),
            rest < 10,
            text@ == decimal_digits(rest as nat) + reversed@.reverse().take(
                reversed@.len() - remaining,
            ),
        decreases remaining,
    {
        remaining -= 1;
        text.push(reversed[remaining]);
        proof {
            let digits = reversed@.reverse();
            let done = reversed@.len() - remaining;
            assert(digits.take(done) =~= digits.take(done - 1).push(reversed@[remaining as int]));
        }
    }
    assert(reversed@.reverse().take(reversed@.len() as int) =~= reversed@.reverse());
    text
}

} // verus!
