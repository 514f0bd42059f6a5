//! Selected text on Windows, through UI Automation: what to read off the
//! elements that the system reports, and which key events type a text.

use crate::text::optional_text;
use vstd::prelude::*;
use vstd::string::StringExecFns;

verus! {

broadcast use {vstd::string::group_string_axioms, vstd::std_specs::vec::group_vec_axioms};

/// What UI Automation reports of one element: the text of each selected
/// range of its text pattern that could be read, in order; the value of its
/// value pattern, where it has one that could be read; and its children.
#[derive(Debug, PartialEq, Eq)]
pub struct UiElement {
    pub selection: Vec<String>,
    pub value: Option<String>,
    pub children: Vec<UiElement>,
}

/// The flag of a key event that carries a Unicode character.
pub const KEYEVENTF_UNICODE: u32 = 0x0004;

/// The flag of a key event that releases the key.
pub const KEYEVENTF_KEYUP: u32 = 0x0002;

/// A keyboard event that carries one UTF-16 code unit.
#[derive(Debug, Clone, Copy, PartialEq, Eq, Structural)]
pub struct KeyEvent {
    pub unit: u16,
    pub flags: u32,
}

/// The texts of the selected ranges of an element, joined.
pub open spec fn selected_text(element: UiElement) -> Seq<char> {
    element.selection@.map_values(|range: String| range@).flatten()
}

/// The text that an element gives: the text of its selected ranges, if they
/// have any; else its value, if that is not empty.
pub open spec fn element_text(element: UiElement) -> Option<Seq<char>> {
    if selected_text(element).len() > 0 {
        Some(selected_text(element))
    } else {
        match element.value {
            Some(value) => if value@.len() > 0 {
                Some(value@)
            } else {
                None
            },
            None => None,
        }
    }
}

/// The text that the tree under an element gives: that of the first
/// element that gives any, each element coming before its children and
/// the children in their order.
pub open spec fn tree_text(element: UiElement) -> Option<Seq<char>>
    decreases element, 1nat, 0nat,
{
    match element_text(element) {
        Some(text) => Some(text),
        None => children_text(element, 0),
    }
}

/// The text that the trees under the children of an element give, from
/// child `from` on: that of the first tree that gives any.
pub open spec fn children_text(element: UiElement, from: nat) -> Option<Seq<char>>
    decreases element, 0nat, element.children@.len() - from,
{
    if from >= element.children@.len() {
        None
    } else {
        match tree_text(element.children[from as int]) {
            Some(text) => Some(text),
            None => children_text(element, from + 1),
        }
    }
}

/// The selected text: what the focused element gives, if there is one and
/// it gives any; else what the tree under the root element gives, if there
/// is one.
pub open spec fn spec_selection_text(
    focused: Option<&UiElement>,
    root: Option<&UiElement>,
) -> Option<Seq<char>> {
    match focused {
        Some(element) => match element_text(*element) {
            Some(text) => Some(text),
            None => match root {
                Some(top) => tree_text(*top),
                None => None,
            },
        },
        None => match root {
            Some(top) => tree_text(*top),
            None => None,
        },
    }
}

/// The UTF-16 code units of a character: the code point itself if it is
/// below `0x10000`, else a high and a low surrogate that carry its upper
/// and lower ten bits.
pub open spec fn utf16_of_char(c: char) -> Seq<u16> {
    let code = c as u32;
    if code < 0x1_0000 {
        seq![code as u16]
    } else {
        seq![
            (0xD800 + (code - 0x1_0000) / 0x400) as u16,
            (0xDC00 + (code - 0x1_0000) % 0x400) as u16,
        ]
    }
}

/// The UTF-16 code units of a text.
pub open spec fn utf16_of(text: Seq<char>) -> Seq<u16> {
    text.map_values(|c: char| utf16_of_char(c)).flatten()
}

/// The key events that type a sequence of code units: for each unit a key
/// press and a key release that carry it.
pub open spec fn key_events_of(units: Seq<u16>) -> Seq<KeyEvent> {
    Seq::new(
        2 * units.len(),
        |i: int|
            KeyEvent {
                unit: units[i / 2],
                flags: if i % 2 == 0 {
                    KEYEVENTF_UNICODE
                } else {
                    (KEYEVENTF_UNICODE + KEYEVENTF_KEYUP) as u32
                },
            },
    )
}

/// The text that an element gives: the text of its selected ranges, if
/// they have any; else its value, if that is not empty.
pub fn try_get_text_from_element(element: &UiElement) -> (text: Option<String>)
    ensures
        optional_text(text) == element_text(*element),
{
    let mut collected = String::new();
    let ghost ranges = element.selection@.map_values(|range: String| range@);
    let mut i: usize = 0;
    assert(ranges.take(0) =~= Seq::<Seq<char>>::empty());
    while i < element.selection.len()
        invariant
            i <= element.selection@.len(),
            ranges == element.selection@.map_values(|range: String| range@),
            collected@ == ranges.take(i as int).flatten(),
        decreases element.selection@.len() - i,
    {
        proof {
            assert(ranges.take(i + 1) =~= ranges.take(i as int).push(ranges[i as int]));
            ranges.take(i as int).lemma_flatten_push(ranges[i as int]);
        }
        collected.append(element.selection[i].as_str());
        i += 1;
    }
    assert(ranges.take(ranges.len() as int) =~= ranges);
    if !collected.as_str().is_empty() {
        return Some(collected);
    }
    match &element.value {
        Some(value) => {
            if !value.as_str().is_empty() {
                Some(value.clone())
            } else {
                None
            }
        },
        None => None,
    }
}

/// The text that the tree under an element gives: that of the first
/// element that gives any, each element coming before its children and
/// the children in their order.
pub fn find_selected_text_in_tree(root: &UiElement) -> (text: Option<String>)
    ensures
        optional_text(text) == tree_text(*root),
    decreases *root,
{
    match try_get_text_from_element(root) {
        Some(text) => {
            return Some(text);
        },
        None => {},
    }
    let mut i: usize = 0;
    while i < root.children.len()
        invariant
            i <= root.children@.len(),
            element_text(*root) is None,
            tree_text(*root) == children_text(*root, i as nat),
        decreases root.children@.len() - i,
    {
        match find_selected_text_in_tree(&root.children[i]) {
            Some(text) => {
                return Some(text);
            },
            None => {},
        }
        i += 1;
    }
    None
}

/// The selected text: what the focused element gives, if there is one and
/// it gives any; else what the tree under the root element gives, if there
/// is one.
pub fn try_uia_get_selection_text(focused: Option<&UiElement>, root: Option<&UiElement>) -> (text:
    Option<String>)
    ensures
        optional_text(text) == spec_selection_text(focused, root),
{
    match focused {
        Some(element) => {
            match try_get_text_from_element(element) {
                Some(text) => {
                    return Some(text);
                },
                None => {},
            }
        },
        None => {},
    }
    match root {
        Some(top) => find_selected_text_in_tree(top),
        None => None,
    }
}

/// The selected text, from the focused element and the root element that
/// UI Automation reports, each `None` where it reports none.
pub fn get_highlighted_text(focused: Option<&UiElement>, root: Option<&UiElement>) -> (text:
    Option<String>)
    ensures
        optional_text(text) == spec_selection_text(focused, root),
{
    try_uia_get_selection_text(focused, root)
}

/// The UTF-16 code units of a text.
pub fn encode_utf16(text: &str) -> (units: Vec<u16>)
    ensures
        units@ == utf16_of(text@),
{
    let mut units: Vec<u16> = Vec::new();
    let ghost encoded = text@.map_values(|c: char| utf16_of_char(c));
    let text_chars = text.chars();
    assert(encoded.take(0) =~= Seq::<Seq<u16>>::empty());
    for ch in iter: text_chars
        invariant
            iter.seq() == text@,
            encoded == text@.map_values(|c: char| utf16_of_char(c)),
            units@ == encoded.take(iter.index()).flatten(),
    {
        proof {
            assert(encoded.take(iter.index() + 1) =~= encoded.take(iter.index()).push(
                utf16_of_char(ch),
            ));
            encoded.take(iter.index()).lemma_flatten_push(utf16_of_char(ch));
        }
        let code: u32 = ch as u32;
        if code < 0x1_0000 {
            units.push(code as u16);
            assert(units@ =~= encoded.take(iter.index()).flatten() + utf16_of_char(ch));
        } else {
            units.push((0xD800 + (code - 0x1_0000) / 0x400) as u16);
            units.push((0xDC00 + (code - 0x1_0000) % 0x400) as u16);
            assert(units@ =~= encoded.take(iter.index()).flatten() + utf16_of_char(ch));
        }
    }
    assert(encoded.take(encoded.len() as int) =~= encoded);
    units
}

/// The key events that type a text: for each of its UTF-16 code units a
/// key press and a key release that carry it.
pub fn type_unicode_text(text: &str) -> (events: Vec<KeyEvent>)
    ensures
        events@ == key_events_of(utf16_of(text@)),
{
    let units = encode_utf16(text);
    let mut events: Vec<KeyEvent> = Vec::new();
    let mut i: usize = 0;
    while i < units.len()
        invariant
            i <= units@.len(),
            events@ == key_events_of(units@.take(i as int)),
        decreases units@.len() - i,
    {
        events.push(KeyEvent { unit: units[i], flags: KEYEVENTF_UNICODE });
        events.push(KeyEvent { unit: units[i], flags: KEYEVENTF_UNICODE | KEYEVENTF_KEYUP });
        assert(KEYEVENTF_UNICODE | KEYEVENTF_KEYUP == KEYEVENTF_UNICODE + KEYEVENTF_KEYUP)
            by (bit_vector);
        assert(events@ =~= key_events_of(units@.take(i + 1)));
        i += 1;
    }
    assert(units@.take(units@.len() as int) =~= units@);
    events
}

/// The key events that type `new_text` in place of the selection.
pub fn replace_highlighted_text(new_text: &str) -> (events: Vec<KeyEvent>)
    ensures
        events@ == key_events_of(utf16_of(new_text@)),
{
    type_unicode_text(new_text)
}

} // verus!
