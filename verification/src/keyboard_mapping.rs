//! Layout data, layout inference and text remapping.
//!
//! - [`types`]: layouts, key tables and reverse lookups.
//! - [`model`]: what each operation computes, as mathematical functions.
//! - [`lemmas`]: facts about the model.
//! - [`remap`]: the operations themselves.
//! - [`char_class`]: the Unicode properties of characters that are read.
//! - [`linux`], [`windows`], [`fallback`]: layouts as platforms report them.

pub mod char_class;
pub mod fallback;
pub mod lemmas;
pub mod linux;
pub mod model;
pub mod remap;
pub mod types;
pub mod windows;

pub use remap::{get_text_leyaout_map, shift_text_language};
pub use types::{InverseMap, KeyboardDirection, KeyboardLayout, LayoutMap};
