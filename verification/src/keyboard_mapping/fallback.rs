//! Layouts on a platform that has no way of listing them: every operation
//! reports that it is not implemented.

use crate::platform::Unsupported;
use super::types::{KeyboardLayout, LayoutMap};
use vstd::prelude::*;

verus! {

/// The report for an operation of this part of the library.
pub open spec fn not_implemented(operation: &'static str) -> Unsupported {
    Unsupported { module: "keyboard_mapping", operation }
}

/// Reports that layouts cannot be described on this platform.
pub fn get_layout(_index: usize) -> (layout: Result<Option<KeyboardLayout>, Unsupported>)
    ensures
        layout == Err::<Option<KeyboardLayout>, Unsupported>(not_implemented("get_layout")),
{
    Err(Unsupported { module: "keyboard_mapping", operation: "get_layout" })
}

/// Reports that layouts cannot be listed on this platform.
pub fn list_layouts() -> (layouts: Result<Vec<KeyboardLayout>, Unsupported>)
    ensures
        layouts == Err::<Vec<KeyboardLayout>, Unsupported>(not_implemented("list_layouts")),
{
    Err(Unsupported { module: "keyboard_mapping", operation: "list_layouts" })
}

/// Reports that key tables cannot be read on this platform.
pub fn vk_to_char_map_for_layout(_index: u32) -> (layout_map: Result<LayoutMap, Unsupported>)
    ensures
        layout_map == Err::<LayoutMap, Unsupported>(not_implemented("vk_to_char_map_for_layout")),
{
    Err(Unsupported { module: "keyboard_mapping", operation: "vk_to_char_map_for_layout" })
}

/// Reports that key tables cannot be read on this platform.
pub fn vk_to_char_map_default() -> (layout_map: Result<LayoutMap, Unsupported>)
    ensures
        layout_map == Err::<LayoutMap, Unsupported>(not_implemented("vk_to_char_map_default")),
{
    Err(Unsupported { module: "keyboard_mapping", operation: "vk_to_char_map_default" })
}

/// Reports that key tables cannot be read on this platform.
pub fn all_layout_vk_maps() -> (layout_maps: Result<Vec<LayoutMap>, Unsupported>)
    ensures
        layout_maps == Err::<Vec<LayoutMap>, Unsupported>(not_implemented("all_layout_vk_maps")),
{
    Err(Unsupported { module: "keyboard_mapping", operation: "all_layout_vk_maps" })
}

} // verus!
