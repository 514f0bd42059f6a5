//! Value types describing a keyboard layout, its key table, and the reverse
//! lookup derived from a key table.

use std::collections::HashMap;
use vstd::prelude::*;

verus! {

broadcast use vstd::std_specs::hash::group_hash_axioms;

/// Writing direction of a layout.
#[derive(Debug, Clone, Copy, PartialEq, Eq, Structural)]
pub enum KeyboardDirection {
    LTR,
    RTL,
}

/// A layout's label and writing direction. The label is free text and need
/// not be unique.
#[derive(Debug, Clone, PartialEq, Eq)]
pub struct KeyboardLayout {
    pub lang_name: String,
    pub direction: KeyboardDirection,
}

/// What a `KeyboardLayout` holds, with the label as a sequence of
/// characters.
pub struct KeyboardLayoutView {
    pub lang_name: Seq<char>,
    pub direction: KeyboardDirection,
}

impl View for KeyboardLayout {
    type V = KeyboardLayoutView;

    open spec fn view(&self) -> KeyboardLayoutView {
        KeyboardLayoutView { lang_name: self.lang_name@, direction: self.direction }
    }
}

/// A layout together with the text that each physical key produces when
/// pressed without modifiers. A key may produce nothing, one character or
/// several.
#[derive(Debug, Clone, PartialEq, Eq)]
pub struct LayoutMap {
    pub layout: KeyboardLayout,
    pub map: HashMap<u16, String>,
}

/// What a `LayoutMap` holds: the layout, and the key table as a map from key
/// code to the characters produced.
pub struct LayoutMapView {
    pub layout: KeyboardLayoutView,
    pub table: Map<u16, Seq<char>>,
}

impl View for LayoutMap {
    type V = LayoutMapView;

    open spec fn view(&self) -> LayoutMapView {
        LayoutMapView {
            layout: self.layout@,
            table: Map::new(|k: u16| self.map@.contains_key(k), |k: u16| self.map@[k]@),
        }
    }
}

/// A reverse lookup: for a character, the key codes that produce it.
///
/// As a mathematical object it is a map from characters to sequences of key
/// codes; a character without an entry is produced by no key.
#[derive(Debug, Clone, PartialEq, Eq)]
pub struct InverseMap {
    keys: HashMap<u32, Vec<u16>>,
}

impl View for InverseMap {
    type V = Map<char, Seq<u16>>;

    closed spec fn view(&self) -> Map<char, Seq<u16>> {
        stored_view(self.keys@)
    }
}

/// Two characters with the same code point are the same character.
proof fn lemma_code_point_injective(c: char, d: char)
    ensures
        (c as u32 == d as u32) <==> c == d,
{
}

/// Writing `key_codes` under the code point of `c` in the stored table is
/// writing it under `c` in the view.
proof fn lemma_view_insert(
    before: Map<u32, Vec<u16>>,
    after: Map<u32, Vec<u16>>,
    c: char,
    key_codes: Vec<u16>,
)
    requires
        after == before.insert(c as u32, key_codes),
    ensures
        stored_view(after) == stored_view(before).insert(c, key_codes@),
{
    let goal = stored_view(before).insert(c, key_codes@);
    assert forall|d: char| stored_view(after).contains_key(d) == goal.contains_key(d) by {
        lemma_code_point_injective(c, d);
    }
    assert forall|d: char| stored_view(after).contains_key(d) implies stored_view(after)[d]
        == goal[d] by {
        lemma_code_point_injective(c, d);
    }
    assert(stored_view(after) =~= goal);
}

/// A table keyed by code point, read as a map keyed by character.
spec fn stored_view(stored: Map<u32, Vec<u16>>) -> Map<char, Seq<u16>> {
    Map::new(|c: char| stored.contains_key(c as u32), |c: char| stored[c as u32]@)
}

impl InverseMap {
    /// A lookup with no entries.
    pub fn new() -> (inverse: InverseMap)
        ensures
            inverse@ == Map::<char, Seq<u16>>::empty(),
    {
        let inverse = InverseMap { keys: HashMap::new() };
        assert(inverse@ =~= Map::<char, Seq<u16>>::empty());
        inverse
    }

    /// Sets the key codes recorded for `c`, replacing any earlier entry.
    pub fn insert(&mut self, c: char, key_codes: Vec<u16>)
        ensures
            final(self)@ == old(self)@.insert(c, key_codes@),
    {
        let ghost stored = key_codes;
        self.keys.insert(c as u32, key_codes);
        proof {
            lemma_view_insert(old(self).keys@, self.keys@, c, stored);
        }
    }

    /// Whether `c` has an entry.
    pub fn contains_key(&self, c: &char) -> (found: bool)
        ensures
            found == self@.contains_key(*c),
    {
        let code: u32 = *c as u32;
        self.keys.contains_key(&code)
    }

    /// The key codes recorded for `c`, if it has an entry.
    pub fn get(&self, c: &char) -> (entry: Option<&Vec<u16>>)
        ensures
            match entry {
                Some(key_codes) => self@.contains_key(*c) && key_codes@ == self@[*c],
                None => !self@.contains_key(*c),
            },
    {
        let code: u32 = *c as u32;
        self.keys.get(&code)
    }

    /// Appends `key_code` to the entry of `c`, creating the entry if there
    /// is none.
    pub fn push_key(&mut self, c: char, key_code: u16)
        ensures
            final(self)@ == old(self)@.insert(
                c,
                (if old(self)@.contains_key(c) {
                    old(self)@[c]
                } else {
                    Seq::<u16>::empty()
                }).push(key_code),
            ),
    {
        let code: u32 = c as u32;
        let mut key_codes = match self.keys.remove(&code) {
            Some(present) => present,
            None => Vec::new(),
        };
        key_codes.push(key_code);
        let ghost stored = key_codes;
        let ghost removed = self.keys@;
        self.keys.insert(code, key_codes);
        proof {
            lemma_view_insert(removed, self.keys@, c, stored);
            assert(stored_view(removed).insert(c, stored@) =~= old(self)@.insert(c, stored@)) by {
                assert forall|d: char| d != c implies stored_view(removed).contains_key(d)
                    == old(self)@.contains_key(d) by {
                    lemma_code_point_injective(c, d);
                }
                assert forall|d: char| d != c && old(self)@.contains_key(d) implies stored_view(
                    removed,
                )[d] == old(self)@[d] by {
                    lemma_code_point_injective(c, d);
                }
            }
        }
    }
}

} // verus!
