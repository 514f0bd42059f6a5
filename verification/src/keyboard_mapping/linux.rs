//! Layouts of an XKB keymap: what a compiled keymap reports of its layouts,
//! and the layout descriptions and key tables derived from that.

use crate::text::{
    contains_text, decimal_digits, decimal_string, has_at, join, join_with, lowercase_of,
    occurs_at, split, split_on, texts_of, to_chars,
};
use std::collections::HashMap;
use super::char_class::is_rtl;
use super::remap::is_rtl_char;
use super::types::{
    KeyboardDirection, KeyboardLayout, KeyboardLayoutView, LayoutMap, LayoutMapView,
};
use vstd::prelude::*;

verus! {

broadcast use {vstd::std_specs::hash::group_hash_axioms, vstd::string::group_string_axioms};

/// The lowest key code that is looked at.
pub const FIRST_KEY_CODE: u16 = 8;

/// The highest key code that is looked at.
pub const LAST_KEY_CODE: u16 = 255;

/// What a compiled keymap reports of one of its layouts: the layout's name,
/// which may be empty, and for each key code the text that the key produces
/// without modifiers. A key code without an entry produces nothing.
#[derive(Debug, Clone, PartialEq, Eq)]
pub struct XkbLayout {
    pub name: String,
    pub key_text: HashMap<u16, String>,
}

/// What a compiled keymap reports: its layouts, in the keymap's order.
#[derive(Debug, Clone, PartialEq, Eq)]
pub struct XkbKeymap {
    pub layouts: Vec<XkbLayout>,
}

/// The name of a layout in the registry of keyboard configurations.
#[derive(Debug, Clone, PartialEq, Eq)]
pub struct ConfigItem {
    pub name: String,
}

/// A layout in the registry of keyboard configurations.
#[derive(Debug, Clone, PartialEq, Eq)]
pub struct Layout {
    pub config_item: ConfigItem,
}

/// The layouts in the registry of keyboard configurations.
#[derive(Debug, Clone, PartialEq, Eq)]
pub struct LayoutList {
    pub layouts: Vec<Layout>,
}

/// The registry of keyboard configurations, as far as it is read.
#[derive(Debug, Clone, PartialEq, Eq)]
pub struct XkbConfigRegistry {
    pub layout_list: LayoutList,
}

/// The names of the layouts of a registry, in its order.
pub open spec fn registry_names(registry: XkbConfigRegistry) -> Seq<Seq<char>> {
    registry.layout_list.layouts@.map_values(|layout: Layout| layout.config_item.name@)
}

/// The country that a locale name stands for, in lower case: what stands
/// between the first and the second of the separators `_` and `.`. The
/// locales whose names start with `C` or with `POSIX`, and names without a
/// separator, stand for no country.
pub open spec fn country_of() -> spec_fn(Seq<char>) -> Option<Seq<char>> {
    |locale: Seq<char>|
        if occurs_at("C"@, locale, 0) || occurs_at("POSIX"@, locale, 0) {
            None
        } else if split(locale, seq!['_', '.']).len() >= 2 {
            Some(lowercase_of(split(locale, seq!['_', '.'])[1]))
        } else {
            None
        }
}

/// The countries of the locales listed one to a line in `installed`, in
/// the order of the lines.
pub open spec fn active_countries(installed: Seq<char>) -> Seq<Seq<char>> {
    split(installed, seq!['\n']).filter_map(country_of())
}

/// The layout names whose lower case is among the given countries.
pub open spec fn is_active(countries: Seq<Seq<char>>) -> spec_fn(Seq<char>) -> bool {
    |name: Seq<char>| countries.contains(lowercase_of(name))
}

/// The layouts to compile a keymap for: the names of the registry's layouts
/// that are the country of an installed locale, in the registry's order,
/// joined by a comma and a space.
pub open spec fn spec_locale_layouts(registry: XkbConfigRegistry, installed: Seq<char>) -> Seq<
    char,
> {
    join(registry_names(registry).filter(is_active(active_countries(installed))), ", "@)
}

/// The text that a key of a layout produces; empty if it produces nothing.
pub open spec fn key_text_of(layout: XkbLayout, key_code: u16) -> Seq<char> {
    if layout.key_text@.contains_key(key_code) {
        layout.key_text@[key_code]@
    } else {
        Seq::empty()
    }
}

/// Whether a key code is one of those looked at.
pub open spec fn is_scanned(key_code: u16) -> bool {
    FIRST_KEY_CODE <= key_code <= LAST_KEY_CODE
}

/// Whether the text that a key produces starts with a right-to-left
/// character.
pub open spec fn key_starts_rtl(layout: XkbLayout, key_code: u16) -> bool {
    key_text_of(layout, key_code).len() > 0 && is_rtl(key_text_of(layout, key_code)[0])
}

/// The direction of a layout: right-to-left if one of the keys looked at
/// produces text that starts with a right-to-left character.
pub open spec fn layout_direction(layout: XkbLayout) -> KeyboardDirection {
    if exists|key_code: u16| is_scanned(key_code) && key_starts_rtl(layout, key_code) {
        KeyboardDirection::RTL
    } else {
        KeyboardDirection::LTR
    }
}

/// The description of the layout at `index` of a keymap: its name, or its
/// index in base ten where it has no name, and its direction.
pub open spec fn described_layout(layout: XkbLayout, index: u32) -> KeyboardLayoutView {
    KeyboardLayoutView {
        lang_name: if layout.name@.len() == 0 {
            decimal_digits(index as nat)
        } else {
            layout.name@
        },
        direction: layout_direction(layout),
    }
}

/// The description used for a layout that the keymap does not hold: its
/// index in base ten, left-to-right.
pub open spec fn unknown_layout(index: u32) -> KeyboardLayoutView {
    KeyboardLayoutView {
        lang_name: decimal_digits(index as nat),
        direction: KeyboardDirection::LTR,
    }
}

/// The description used where there is no keymap, or a keymap without
/// layouts: one left-to-right layout named `current`.
pub open spec fn current_layout() -> KeyboardLayoutView {
    KeyboardLayoutView { lang_name: "current"@, direction: KeyboardDirection::LTR }
}

/// The key table of a layout: the keys looked at that produce some text,
/// each with its text.
pub open spec fn layout_table(layout: XkbLayout) -> Map<u16, Seq<char>> {
    Map::new(
        |key_code: u16| is_scanned(key_code) && key_text_of(layout, key_code).len() > 0,
        |key_code: u16| key_text_of(layout, key_code),
    )
}

/// Whether a keymap is there and holds a layout at `index`.
pub open spec fn has_layout(keymap: Option<&XkbKeymap>, index: u32) -> bool {
    keymap matches Some(present) && index < present.layouts@.len()
}

/// The description of the layout at `index`, if a keymap is there and
/// holds it.
pub open spec fn spec_get_layout(keymap: Option<&XkbKeymap>, index: u32) -> Option<
    KeyboardLayoutView,
> {
    match keymap {
        Some(present) => if index < present.layouts@.len() {
            Some(described_layout(present.layouts@[index as int], index))
        } else {
            None
        },
        None => None,
    }
}

/// The layout map of the layout at `index`: its description and key table,
/// or, where the keymap does not hold it, the description of an unknown
/// layout and an empty table.
pub open spec fn spec_layout_map(keymap: Option<&XkbKeymap>, index: u32) -> LayoutMapView {
    match keymap {
        Some(present) => if index < present.layouts@.len() {
            LayoutMapView {
                layout: described_layout(present.layouts@[index as int], index),
                table: layout_table(present.layouts@[index as int]),
            }
        } else {
            LayoutMapView { layout: unknown_layout(index), table: Map::empty() }
        },
        None => LayoutMapView { layout: unknown_layout(index), table: Map::empty() },
    }
}

/// How many layouts are listed: those of the keymap that a 32-bit index
/// reaches, or one where there is no keymap or it has none.
pub open spec fn listed_count(keymap: Option<&XkbKeymap>) -> nat {
    match keymap {
        Some(present) => if present.layouts@.len() == 0 {
            1
        } else if present.layouts@.len() <= u32::MAX {
            present.layouts@.len()
        } else {
            0x1_0000_0000
        },
        None => 1,
    }
}

/// The country that a locale name stands for, if it stands for one.
fn locale_country(locale: &str) -> (country: Option<String>)
    ensures
        match country {
            Some(found) => country_of()(locale@) == Some(found@),
            None => country_of()(locale@) is None,
        },
{
    let chars = to_chars(locale);
    let posix = to_chars("POSIX");
    let c = to_chars("C");
    if has_at(c.as_slice(), chars.as_slice(), 0) || has_at(posix.as_slice(), chars.as_slice(), 0) {
        return None;
    }
    let separators: [char; 2] = ['_', '.'];
    assert(separators@ =~= seq!['_', '.']);
    let parts = split_on(locale, separators.as_slice());
    if parts.len() >= 2 {
        assert(texts_of(parts@)[1] == parts@[1]@);
        Some(parts[1].as_str().to_lowercase())
    } else {
        None
    }
}

/// The layouts to compile a keymap for, out of the registry of keyboard
/// configurations and the list of installed locales, one to a line: the
/// names of the registry's layouts that are, in lower case, the country of
/// an installed locale, in the registry's order, joined by a comma and a
/// space.
pub fn get_locale_layout_and_variant_strs(
    registry: &XkbConfigRegistry,
    installed_locales: &str,
) -> (layouts: String)
    ensures
        layouts@ == spec_locale_layouts(*registry, installed_locales@),
{
    let line_end: [char; 1] = ['\n'];
    assert(line_end@ =~= seq!['\n']);
    let locales = split_on(installed_locales, line_end.as_slice());
    let ghost lines = texts_of(locales@);
    let mut countries: Vec<String> = Vec::new();
    let mut i: usize = 0;
    assert(lines.take(0) =~= Seq::<Seq<char>>::empty());
    while i < locales.len()
        invariant
            i <= locales@.len(),
            lines == texts_of(locales@),
            texts_of(countries@) == lines.take(i as int).filter_map(country_of()),
        decreases locales@.len() - i,
    {
        proof {
            lines.lemma_filter_map_take_succ(country_of(), i as int);
        }
        let ghost earlier = texts_of(countries@);
        match locale_country(locales[i].as_str()) {
            Some(country) => {
                let ghost found = country@;
                countries.push(country);
                assert(texts_of(countries@) =~= earlier + seq![found]);
            },
            None => {
                assert(earlier + Seq::<Seq<char>>::empty() =~= earlier);
            },
        }
        i += 1;
    }
    assert(lines.take(lines.len() as int) =~= lines);

    let ghost names = registry_names(*registry);
    let ghost active = is_active(texts_of(countries@));
    let mut selected: Vec<String> = Vec::new();
    let mut j: usize = 0;
    assert(names.take(0) =~= Seq::<Seq<char>>::empty());
    while j < registry.layout_list.layouts.len()
        invariant
            j <= registry.layout_list.layouts@.len(),
            names == registry_names(*registry),
            active == is_active(texts_of(countries@)),
            texts_of(selected@) == names.take(j as int).filter(active),
        decreases registry.layout_list.layouts@.len() - j,
    {
        let name = &registry.layout_list.layouts[j].config_item.name;
        proof {
            assert(names.take(j + 1) =~= names.take(j as int).push(name@));
            names.take(j as int).lemma_filter_push(name@, active);
        }
        let lowered = name.as_str().to_lowercase();
        if contains_text(countries.as_slice(), &lowered) {
            let ghost earlier = texts_of(selected@);
            selected.push(name.clone());
            assert(texts_of(selected@) =~= earlier.push(name@));
        }
        j += 1;
    }
    assert(names.take(names.len() as int) =~= names);
    join_with(selected.as_slice(), ", ")
}

/// Whether the text that a key produces starts with a right-to-left
/// character.
fn starts_rtl(layout: &XkbLayout, key_code: u16) -> (rtl: bool)
    ensures
        rtl == key_starts_rtl(*layout, key_code),
{
    match layout.key_text.get(&key_code) {
        Some(text) => {
            let mut chars = text.as_str().chars();
            match chars.next() {
                Some(first) => is_rtl_char(first),
                None => false,
            }
        },
        None => false,
    }
}

/// Describes one layout of a keymap.
fn describe_layout(layout: &XkbLayout, index: u32) -> (described: KeyboardLayout)
    ensures
        described@ == described_layout(*layout, index),
{
    let lang_name = if layout.name.as_str().is_empty() {
        decimal_string(index)
    } else {
        layout.name.clone()
    };
    let mut dir = KeyboardDirection::LTR;
    let mut code: u32 = FIRST_KEY_CODE as u32;
    while code <= LAST_KEY_CODE as u32
        invariant_except_break
            FIRST_KEY_CODE <= code <= LAST_KEY_CODE + 1,
            dir == KeyboardDirection::LTR,
            forall|key_code: u16|
                FIRST_KEY_CODE <= key_code < code ==> !key_starts_rtl(*layout, key_code),
        ensures
            dir == layout_direction(*layout),
        decreases LAST_KEY_CODE + 1 - code,
    {
        if starts_rtl(layout, code as u16) {
            assert(is_scanned(code as u16) && key_starts_rtl(*layout, code as u16));
            dir = KeyboardDirection::RTL;
            break ;
        }
        code += 1;
    }
    KeyboardLayout { lang_name, direction: dir }
}

/// The key table of one layout of a keymap.
fn layout_key_table(layout: &XkbLayout) -> (table: HashMap<u16, String>)
    ensures
        Map::new(|k: u16| table@.contains_key(k), |k: u16| table@[k]@) == layout_table(*layout),
{
    let mut table: HashMap<u16, String> = HashMap::new();
    let mut code: u32 = FIRST_KEY_CODE as u32;
    while code <= LAST_KEY_CODE as u32
        invariant
            FIRST_KEY_CODE <= code <= LAST_KEY_CODE + 1,
            forall|k: u16|
                table@.contains_key(k) <==> (FIRST_KEY_CODE <= k < code && key_text_of(
                    *layout,
                    k,
                ).len() > 0),
            forall|k: u16| table@.contains_key(k) ==> table@[k]@ == key_text_of(*layout, k),
        decreases LAST_KEY_CODE + 1 - code,
    {
        let key_code = code as u16;
        match layout.key_text.get(&key_code) {
            Some(text) => {
                if !text.as_str().is_empty() {
                    table.insert(key_code, text.clone());
                }
            },
            None => {},
        }
        code += 1;
    }
    assert(Map::new(|k: u16| table@.contains_key(k), |k: u16| table@[k]@) =~= layout_table(
        *layout,
    ));
    table
}

/// The description of the layout at `index` of a keymap: `None` where
/// there is no keymap or it holds no layout at that index.
pub fn get_layout(keymap: Option<&XkbKeymap>, index: u32) -> (layout: Option<KeyboardLayout>)
    ensures
        match layout {
            Some(described) => Some(described@) == spec_get_layout(keymap, index),
            None => spec_get_layout(keymap, index) is None,
        },
{
    match keymap {
        Some(present) => {
            if index as usize >= present.layouts.len() {
                return None;
            }
            Some(describe_layout(&present.layouts[index as usize], index))
        },
        None => None,
    }
}

/// The descriptions of all layouts of a keymap, in its order. Where there
/// is no keymap, or it holds no layout, the list holds one left-to-right
/// layout named `current`.
pub fn list_layouts(keymap: Option<&XkbKeymap>) -> (layouts: Vec<KeyboardLayout>)
    ensures
        layouts@.len() == listed_count(keymap),
        forall|i: int|
            0 <= i < layouts@.len() ==> (#[trigger] layouts@[i])@ == (if has_layout(
                keymap,
                i as u32,
            ) {
                spec_get_layout(keymap, i as u32)->0
            } else {
                current_layout()
            }),
{
    let mut result: Vec<KeyboardLayout> = Vec::new();
    match keymap {
        Some(present) => {
            let mut i: usize = 0;
            while i < present.layouts.len() && i <= u32::MAX as usize
                invariant
                    keymap == Some(present),
                    i <= present.layouts@.len(),
                    i <= u32::MAX + 1,
                    result@.len() == i,
                    forall|j: int|
                        0 <= j < i ==> (#[trigger] result@[j])@ == spec_get_layout(
                            keymap,
                            j as u32,
                        )->0,
                decreases present.layouts@.len() - i,
            {
                result.push(describe_layout(&present.layouts[i], i as u32));
                i += 1;
            }
        },
        None => {},
    }
    if result.len() == 0 {
        result.push(
            KeyboardLayout { lang_name: "current".to_owned(), direction: KeyboardDirection::LTR },
        );
    }
    result
}

/// The layout map of the layout at `layout_index` of a keymap: its
/// description, and the text of every key looked at that produces some.
/// Where the keymap does not hold the layout, the layout is named by its
/// index, left-to-right, and the table is empty.
pub fn vk_to_char_map_for_layout(keymap: Option<&XkbKeymap>, layout_index: u32) -> (layout_map:
    LayoutMap)
    ensures
        layout_map@ == spec_layout_map(keymap, layout_index),
{
    match keymap {
        Some(present) => {
            if (layout_index as usize) < present.layouts.len() {
                let layout = &present.layouts[layout_index as usize];
                return LayoutMap {
                    layout: describe_layout(layout, layout_index),
                    map: layout_key_table(layout),
                };
            }
        },
        None => {},
    }
    let layout_map = LayoutMap {
        layout: KeyboardLayout {
            lang_name: decimal_string(layout_index),
            direction: KeyboardDirection::LTR,
        },
        map: HashMap::new(),
    };
    assert(layout_map@.table =~= Map::<u16, Seq<char>>::empty());
    layout_map
}

/// The layout map of the first layout of a keymap.
pub fn vk_to_char_map_default(keymap: Option<&XkbKeymap>) -> (layout_map: LayoutMap)
    ensures
        layout_map@ == spec_layout_map(keymap, 0),
{
    vk_to_char_map_for_layout(keymap, 0)
}

/// The layout maps of all layouts listed for a keymap, in the order of the
/// list.
pub fn all_layout_vk_maps(keymap: Option<&XkbKeymap>) -> (layout_maps: Vec<LayoutMap>)
    ensures
        layout_maps@.len() == listed_count(keymap),
        forall|i: int|
            0 <= i < layout_maps@.len() ==> (#[trigger] layout_maps@[i])@ == spec_layout_map(
                keymap,
                i as u32,
            ),
{
    let total = list_layouts(keymap).len();
    let mut layout_maps: Vec<LayoutMap> = Vec::new();
    let mut i: usize = 0;
    while i < total
        invariant
            i <= total,
            total == listed_count(keymap),
            layout_maps@.len() == i,
            forall|j: int|
                0 <= j < i ==> (#[trigger] layout_maps@[j])@ == spec_layout_map(keymap, j as u32),
        decreases total - i,
    {
        layout_maps.push(vk_to_char_map_for_layout(keymap, i as u32));
        i += 1;
    }
    layout_maps
}

} // verus!
