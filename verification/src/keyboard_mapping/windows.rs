//! Layouts installed on Windows: what the system reports of each input
//! locale, and the layout descriptions and key tables derived from that.

use crate::text::{digit_char, digit_to_char, optional_text};
use std::collections::HashMap;
use super::types::{
    KeyboardDirection, KeyboardLayout, KeyboardLayoutView, LayoutMap, LayoutMapView,
};
use vstd::prelude::*;

verus! {

broadcast use {vstd::std_specs::hash::group_hash_axioms, vstd::string::group_string_axioms};

/// The highest virtual key code that is looked at.
pub const LAST_VIRTUAL_KEY: u16 = 255;

/// What the system reports of one virtual key under one input locale: the
/// scan code of the key, zero if it has none; how many characters pressing
/// the key wrote, zero or less if it wrote none; and the text it wrote.
#[derive(Debug, Clone, PartialEq, Eq)]
pub struct KeyProbe {
    pub scan_code: u32,
    pub written: i32,
    pub text: String,
}

/// What the system reports of one installed input locale: its handle, the
/// locale name and the display name that the system has for its language,
/// where it has them, and its virtual keys, the entry at index `vk` being
/// that of virtual key `vk`.
#[derive(Debug, Clone, PartialEq, Eq)]
pub struct InstalledLayout {
    pub hkl: usize,
    pub locale_name: Option<String>,
    pub display_name: Option<String>,
    pub keys: Vec<KeyProbe>,
}

/// The language identifier of an input locale: the low sixteen bits of its
/// handle.
pub open spec fn spec_langid_of_hkl(hkl: usize) -> u16 {
    (hkl % 0x1_0000) as u16
}

/// The primary language of a language identifier: its low ten bits.
pub open spec fn primary_language(langid: u16) -> u16 {
    langid & 0x03FF
}

/// Whether a language identifier names a language written right to left:
/// Arabic, Hebrew, Persian, Urdu, Syriac, Divehi, Pashto, Yiddish or
/// Central Kurdish.
pub open spec fn spec_langid_is_rtl(langid: u16) -> bool {
    let primary = primary_language(langid);
    ||| primary == 0x01
    ||| primary == 0x0D
    ||| primary == 0x29
    ||| primary == 0x20
    ||| primary == 0x5A
    ||| primary == 0x65
    ||| primary == 0x63
    ||| primary == 0x3D
    ||| primary == 0x92
}

/// A language identifier written as `0x` and four hexadecimal digits, in
/// upper case.
pub open spec fn hex_name(langid: u16) -> Seq<char> {
    seq![
        '0',
        'x',
        digit_char(langid as int / 0x1000),
        digit_char(langid as int / 0x100 % 0x10),
        digit_char(langid as int / 0x10 % 0x10),
        digit_char(langid as int % 0x10),
    ]
}

/// The name of a language: its display name where the system has a locale
/// name and a display name that is not empty; else its locale name; else,
/// where the system has no locale name, its identifier in hexadecimal.
pub open spec fn spec_lang_name(
    langid: u16,
    locale_name: Option<Seq<char>>,
    display_name: Option<Seq<char>>,
) -> Seq<char> {
    match locale_name {
        None => hex_name(langid),
        Some(locale) => match display_name {
            Some(display) => if display.len() > 0 {
                display
            } else {
                locale
            },
            None => locale,
        },
    }
}

/// The description of an installed input locale: the name of its language,
/// and the direction in which that language is written.
pub open spec fn described_layout(layout: InstalledLayout) -> KeyboardLayoutView {
    let langid = spec_langid_of_hkl(layout.hkl);
    KeyboardLayoutView {
        lang_name: spec_lang_name(
            langid,
            optional_text(layout.locale_name),
            optional_text(layout.display_name),
        ),
        direction: if spec_langid_is_rtl(langid) {
            KeyboardDirection::RTL
        } else {
            KeyboardDirection::LTR
        },
    }
}

/// Whether a virtual key of an input locale produces text: it is looked at,
/// the system reports it, it has a scan code, and pressing it wrote at
/// least one character.
pub open spec fn key_is_mapped(layout: InstalledLayout, vk: u16) -> bool {
    &&& vk <= LAST_VIRTUAL_KEY
    &&& vk < layout.keys@.len()
    &&& layout.keys@[vk as int].scan_code != 0
    &&& layout.keys@[vk as int].written > 0
}

/// The key table of an installed input locale: each virtual key that
/// produces text, with that text.
pub open spec fn layout_table(layout: InstalledLayout) -> Map<u16, Seq<char>> {
    Map::new(|vk: u16| key_is_mapped(layout, vk), |vk: u16| layout.keys@[vk as int].text@)
}

/// The layout map of an installed input locale.
pub open spec fn spec_layout_map(layout: InstalledLayout) -> LayoutMapView {
    LayoutMapView { layout: described_layout(layout), table: layout_table(layout) }
}

/// The language identifier of an input locale.
pub fn langid_of_hkl(hkl: usize) -> (langid: u16)
    ensures
        langid == spec_langid_of_hkl(hkl),
{
    (hkl % 0x1_0000) as u16
}

/// Whether a language identifier names a language written right to left.
pub fn windows_langid_is_rtl(langid: u16) -> (rtl: bool)
    ensures
        rtl == spec_langid_is_rtl(langid),
{
    let primary = langid & 0x03FF;
    primary == 0x01 || primary == 0x0D || primary == 0x29 || primary == 0x20 || primary == 0x5A
        || primary == 0x65 || primary == 0x63 || primary == 0x3D || primary == 0x92
}

/// The name of a language, from what the system has for it: `locale_name`
/// is the locale name of the language, `display_name` its display name,
/// each `None` where the system has none.
pub fn lang_name_from_langid(
    langid: u16,
    locale_name: Option<&String>,
    display_name: Option<&String>,
) -> (name: String)
    ensures
        name@ == spec_lang_name(
            langid,
            match locale_name {
                Some(locale) => Some(locale@),
                None => None,
            },
            match display_name {
                Some(display) => Some(display@),
                None => None,
            },
        ),
{
    match locale_name {
        None => {
            let mut name = String::new();
            name.push('0');
            name.push('x');
            name.push(digit_to_char((langid / 0x1000) as u8));
            name.push(digit_to_char((langid / 0x100 % 0x10) as u8));
            name.push(digit_to_char((langid / 0x10 % 0x10) as u8));
            name.push(digit_to_char((langid % 0x10) as u8));
            assert(name@ =~= hex_name(langid));
            name
        },
        Some(locale) => {
            match display_name {
                Some(display) => {
                    if display.as_str().is_empty() {
                        locale.clone()
                    } else {
                        display.clone()
                    }
                },
                None => locale.clone(),
            }
        },
    }
}

/// Describes an installed input locale.
pub fn keyboard_layout_from_hkl(layout: &InstalledLayout) -> (described: KeyboardLayout)
    ensures
        described@ == described_layout(*layout),
{
    let langid = langid_of_hkl(layout.hkl);
    let direction = if windows_langid_is_rtl(langid) {
        KeyboardDirection::RTL
    } else {
        KeyboardDirection::LTR
    };
    KeyboardLayout {
        lang_name: lang_name_from_langid(
            langid,
            layout.locale_name.as_ref(),
            layout.display_name.as_ref(),
        ),
        direction,
    }
}

/// The description of the input locale at `index`, if there is one.
pub fn get_layout(layouts: &[InstalledLayout], index: usize) -> (layout: Option<KeyboardLayout>)
    ensures
        match layout {
            Some(described) => index < layouts@.len() && described@ == described_layout(
                layouts@[index as int],
            ),
            None => index >= layouts@.len(),
        },
{
    if index < layouts.len() {
        Some(keyboard_layout_from_hkl(&layouts[index]))
    } else {
        None
    }
}

/// The descriptions of all installed input locales, in the order given.
pub fn list_layouts(layouts: &[InstalledLayout]) -> (described: Vec<KeyboardLayout>)
    ensures
        described@.len() == layouts@.len(),
        forall|i: int|
            0 <= i < layouts@.len() ==> (#[trigger] described@[i])@ == described_layout(
                layouts@[i],
            ),
{
    let mut described: Vec<KeyboardLayout> = Vec::new();
    let mut i: usize = 0;
    while i < layouts.len()
        invariant
            i <= layouts@.len(),
            described@.len() == i,
            forall|j: int|
                0 <= j < i ==> (#[trigger] described@[j])@ == described_layout(layouts@[j]),
        decreases layouts@.len() - i,
    {
        described.push(keyboard_layout_from_hkl(&layouts[i]));
        i += 1;
    }
    described
}

/// The layout map of an installed input locale: its description, and the
/// text of every virtual key that produces some.
pub fn vk_to_char_map_for_layout(layout: &InstalledLayout) -> (layout_map: LayoutMap)
    ensures
        layout_map@ == spec_layout_map(*layout),
{
    let described = keyboard_layout_from_hkl(layout);
    let mut map: HashMap<u16, String> = HashMap::new();
    let mut vk: usize = 0;
    while vk <= LAST_VIRTUAL_KEY as usize && vk < layout.keys.len()
        invariant
            vk <= LAST_VIRTUAL_KEY + 1,
            vk <= layout.keys@.len(),
            forall|k: u16|
                #[trigger] map@.contains_key(k) <==> (k < vk && key_is_mapped(*layout, k)),
            forall|k: u16|
                #[trigger] map@.contains_key(k) ==> map@[k]@ == layout.keys@[k as int].text@,
        decreases LAST_VIRTUAL_KEY + 1 - vk,
    {
        let probe = &layout.keys[vk];
        if probe.scan_code != 0 && probe.written > 0 {
            map.insert(vk as u16, probe.text.clone());
        }
        vk += 1;
    }
    let layout_map = LayoutMap { layout: described, map };
    assert(layout_map@.table =~= layout_table(*layout));
    layout_map
}

/// The layout map of the input locale that is active.
pub fn vk_to_char_map_default(active: &InstalledLayout) -> (layout_map: LayoutMap)
    ensures
        layout_map@ == spec_layout_map(*active),
{
    vk_to_char_map_for_layout(active)
}

/// The layout maps of all installed input locales, in the order given.
pub fn all_layout_vk_maps(layouts: &[InstalledLayout]) -> (layout_maps: Vec<LayoutMap>)
    ensures
        layout_maps@.len() == layouts@.len(),
        forall|i: int|
            0 <= i < layouts@.len() ==> (#[trigger] layout_maps@[i])@ == spec_layout_map(
                layouts@[i],
            ),
{
    let mut layout_maps: Vec<LayoutMap> = Vec::new();
    let mut i: usize = 0;
    while i < layouts.len()
        invariant
            i <= layouts@.len(),
            layout_maps@.len() == i,
            forall|j: int|
                0 <= j < i ==> (#[trigger] layout_maps@[j])@ == spec_layout_map(layouts@[j]),
        decreases layouts@.len() - i,
    {
        layout_maps.push(vk_to_char_map_for_layout(&layouts[i]));
        i += 1;
    }
    layout_maps
}

} // verus!
