use layout_lib::keyboard_mapping::windows::{
    all_layout_vk_maps, get_layout, keyboard_layout_from_hkl, lang_name_from_langid, langid_of_hkl,
    list_layouts, vk_to_char_map_default, vk_to_char_map_for_layout, windows_langid_is_rtl,
    InstalledLayout, KeyProbe, LAST_VIRTUAL_KEY,
};
use layout_lib::{KeyboardDirection, KeyboardLayout};
use std::collections::HashMap;

fn probes(keys: Vec<(u16, &str)>) -> Vec<KeyProbe> {
    let mut all = Vec::new();
    for _ in 0..=255u16 {
        all.push(KeyProbe { scan_code: 0, written: 0, text: String::new() });
    }
    for (vk, text) in keys {
        all[vk as usize] = KeyProbe {
            scan_code: 0x100 + vk as u32,
            written: text.encode_utf16().count() as i32,
            text: text.to_string(),
        };
    }
    all
}

fn english() -> InstalledLayout {
    InstalledLayout {
        hkl: 0x0409_0409,
        locale_name: Some("en-US".to_string()),
        display_name: Some("English".to_string()),
        keys: probes(vec![(0x41, "a"), (0x42, "b"), (0x43, "c"), (0x20, " "), (0x0D, "\r")]),
    }
}

fn hebrew() -> InstalledLayout {
    InstalledLayout {
        hkl: 0x040D_040D,
        locale_name: Some("he-IL".to_string()),
        display_name: Some("Hebrew".to_string()),
        keys: probes(vec![(0x41, "ש"), (0x42, "נ"), (0x43, "ב"), (0x20, " ")]),
    }
}

fn installed() -> Vec<InstalledLayout> {
    vec![english(), hebrew()]
}

#[test]
fn tests_test_list_layouts_returns_non_empty() {
    let installed = installed();
    let layouts = list_layouts(&installed);
    assert!(
        !layouts.is_empty(),
        "Windows should have at least one keyboard layout"
    );
}

#[test]
fn tests_test_get_layout_valid_index() {
    let installed = installed();
    let layouts = list_layouts(&installed);
    if !layouts.is_empty() {
        let layout = get_layout(&installed, 0);
        assert!(
            layout.is_some(),
            "get_layout(0) should return Some for valid index"
        );

        let layout = layout.unwrap();
        assert!(
            !layout.lang_name.is_empty(),
            "Layout should have non-empty language name"
        );
    }
}

#[test]
fn tests_test_get_layout_invalid_index() {
    let installed = installed();
    let layouts = list_layouts(&installed);
    let invalid_index = layouts.len() + 100;
    let layout = get_layout(&installed, invalid_index);
    assert!(
        layout.is_none(),
        "get_layout with invalid index should return None"
    );
}

#[test]
fn tests_test_vk_to_char_map_default_structure() {
    let layout_map = vk_to_char_map_default(&english());

    assert!(
        !layout_map.layout.lang_name.is_empty(),
        "Default layout should have language name"
    );
    assert!(
        !layout_map.map.is_empty(),
        "Default layout should have key mappings"
    );
}

#[test]
fn tests_test_vk_to_char_map_default_contains_common_keys() {
    let layout_map = vk_to_char_map_default(&english());

    let common_vks = vec![0x41, 0x42, 0x43, 0x20, 0x0D];

    for vk in common_vks {
        if layout_map.map.contains_key(&vk) {
            let output = &layout_map.map[&vk];
            assert!(
                !output.is_empty(),
                "VK_{:02X} should have non-empty output",
                vk
            );
        }
    }
}

#[test]
fn tests_test_vk_to_char_map_for_layout_structure() {
    let installed = installed();
    let layouts = list_layouts(&installed);
    if !layouts.is_empty() {
        let layout_map = vk_to_char_map_for_layout(&installed[0]);

        assert!(
            !layout_map.layout.lang_name.is_empty(),
            "Layout should have language name"
        );
        assert!(
            !layout_map.map.is_empty(),
            "Layout should have key mappings"
        );
    }
}

#[test]
fn tests_test_all_layout_vk_maps_structure() {
    let layout_maps = all_layout_vk_maps(&installed());

    assert!(
        !layout_maps.is_empty(),
        "Should have at least one layout map"
    );

    for layout_map in &layout_maps {
        assert!(
            !layout_map.layout.lang_name.is_empty(),
            "Each layout should have language name"
        );
        assert!(
            !layout_map.map.is_empty(),
            "Each layout should have key mappings"
        );
    }
}

#[test]
fn tests_test_all_layout_vk_maps_consistency() {
    let installed = installed();
    let layouts = list_layouts(&installed);
    let layout_maps = all_layout_vk_maps(&installed);

    assert_eq!(
        layouts.len(),
        layout_maps.len(),
        "Number of layouts should match number of layout maps"
    );

    for (i, layout_map) in layout_maps.iter().enumerate() {
        if let Some(layout) = get_layout(&installed, i) {
            assert_eq!(
                layout_map.layout.lang_name, layout.lang_name,
                "Layout names should match"
            );
            assert_eq!(
                layout_map.layout.direction, layout.direction,
                "Layout directions should match"
            );
        }
    }
}

#[test]
fn langid_is_the_low_sixteen_bits_of_the_handle() {
    assert_eq!(langid_of_hkl(0), 0);
    assert_eq!(langid_of_hkl(0x0409_0409), 0x0409);
    assert_eq!(langid_of_hkl(0xF0C0_040D), 0x040D);
    assert_eq!(langid_of_hkl(0xFFFF), 0xFFFF);
    assert_eq!(langid_of_hkl(0x1_0000), 0);
    assert_eq!(langid_of_hkl(usize::MAX), 0xFFFF);
}

#[test]
fn langid_is_rtl_by_primary_language() {
    for primary in [0x01u16, 0x0D, 0x29, 0x20, 0x5A, 0x65, 0x63, 0x3D, 0x92] {
        assert!(windows_langid_is_rtl(primary));
        // The sublanguage, above the low ten bits, does not matter.
        assert!(windows_langid_is_rtl(primary | 0x0400));
        assert!(windows_langid_is_rtl(primary | 0xFC00));
    }
    for langid in [0x0000u16, 0x0409, 0x0407, 0x0411, 0x0002, 0x000E, 0x0093, 0x0101, 0x03FF] {
        assert!(!windows_langid_is_rtl(langid));
    }
    let mut count = 0;
    for langid in 0..=u16::MAX {
        if windows_langid_is_rtl(langid) {
            count += 1;
        }
    }
    assert_eq!(count, 9 * 64);
}

#[test]
fn lang_name_prefers_display_name_then_locale_name_then_hex() {
    let locale = "he-IL".to_string();
    let display = "Hebrew".to_string();
    let empty = String::new();
    assert_eq!(lang_name_from_langid(0x040D, Some(&locale), Some(&display)), "Hebrew");
    assert_eq!(lang_name_from_langid(0x040D, Some(&locale), Some(&empty)), "he-IL");
    assert_eq!(lang_name_from_langid(0x040D, Some(&locale), None), "he-IL");
    assert_eq!(lang_name_from_langid(0x040D, Some(&empty), None), "");
    assert_eq!(lang_name_from_langid(0x040D, None, Some(&display)), "0x040D");
    assert_eq!(lang_name_from_langid(0x040D, None, None), "0x040D");
}

#[test]
fn lang_name_in_hex_has_four_upper_case_digits() {
    for langid in [0u16, 9, 0xA, 0xF, 0x10, 0xABCD, 0x0C0A, 0x9F00, 0xFFFF, 0x1234] {
        assert_eq!(lang_name_from_langid(langid, None, None), format!("0x{:04X}", langid));
    }
}

#[test]
fn layout_from_hkl_has_name_and_direction() {
    assert_eq!(
        keyboard_layout_from_hkl(&english()),
        KeyboardLayout { lang_name: "English".to_string(), direction: KeyboardDirection::LTR }
    );
    assert_eq!(
        keyboard_layout_from_hkl(&hebrew()),
        KeyboardLayout { lang_name: "Hebrew".to_string(), direction: KeyboardDirection::RTL }
    );
    let unnamed =
        InstalledLayout { hkl: 0x0401, locale_name: None, display_name: None, keys: vec![] };
    assert_eq!(
        keyboard_layout_from_hkl(&unnamed),
        KeyboardLayout { lang_name: "0x0401".to_string(), direction: KeyboardDirection::RTL }
    );
}

#[test]
fn installed_layouts_are_listed_in_order() {
    let installed = installed();
    let listed = list_layouts(&installed);
    assert_eq!(listed.len(), 2);
    assert_eq!(listed[0].lang_name, "English");
    assert_eq!(listed[1].lang_name, "Hebrew");
    assert_eq!(get_layout(&installed, 1), Some(listed[1].clone()));
    assert_eq!(get_layout(&installed, 2), None);
    assert!(list_layouts(&[]).is_empty());
    assert!(all_layout_vk_maps(&[]).is_empty());
    assert_eq!(get_layout(&[], 0), None);
}

#[test]
fn key_table_holds_keys_with_scan_code_and_text() {
    assert_eq!(LAST_VIRTUAL_KEY, 255);
    let mut keys = probes(vec![(0x41, "a"), (0xFF, "z"), (0x00, "zero")]);
    // No scan code: left out, whatever was written.
    keys[0x42] = KeyProbe { scan_code: 0, written: 1, text: "b".to_string() };
    // A dead key writes a negative count: left out.
    keys[0x43] = KeyProbe { scan_code: 0x2E, written: -1, text: "^".to_string() };
    // Nothing written: left out.
    keys[0x44] = KeyProbe { scan_code: 0x20, written: 0, text: String::new() };
    // Several characters written: kept as they are.
    keys[0x45] = KeyProbe { scan_code: 0x12, written: 2, text: "e\u{0301}".to_string() };
    // Beyond the last virtual key: not looked at.
    keys.push(KeyProbe { scan_code: 0x99, written: 1, text: "x".to_string() });
    let layout =
        InstalledLayout { hkl: 0x0409, locale_name: None, display_name: None, keys };
    let layout_map = vk_to_char_map_for_layout(&layout);
    let mut expected = HashMap::new();
    expected.insert(0x41u16, "a".to_string());
    expected.insert(0xFFu16, "z".to_string());
    expected.insert(0x00u16, "zero".to_string());
    expected.insert(0x45u16, "e\u{0301}".to_string());
    assert_eq!(layout_map.map, expected);
    assert_eq!(layout_map.layout.lang_name, "0x0409");
    assert_eq!(layout_map.layout.direction, KeyboardDirection::LTR);
}

#[test]
fn key_table_of_a_short_probe_list_holds_what_is_there() {
    let layout = InstalledLayout {
        hkl: 0x040D,
        locale_name: None,
        display_name: None,
        keys: vec![
            KeyProbe { scan_code: 1, written: 1, text: "a".to_string() },
            KeyProbe { scan_code: 2, written: 1, text: "b".to_string() },
        ],
    };
    let layout_map = vk_to_char_map_for_layout(&layout);
    assert_eq!(layout_map.map.len(), 2);
    assert_eq!(layout_map.map.get(&1), Some(&"b".to_string()));
    let maps = all_layout_vk_maps(&[layout.clone(), english()]);
    assert_eq!(maps.len(), 2);
    assert_eq!(maps[0], layout_map);
    assert_eq!(maps[1], vk_to_char_map_default(&english()));
}
