//! Keyboard layout utilities: guessing which layout produced a piece of
//! text, and re-rendering text as if it had been typed under another layout.
//!
//! - [`keyboard_mapping`] holds the layout data, the inference of a layout
//!   from a text, the remapping of a text between layouts, and the layout
//!   descriptions and key tables derived from what a platform reports.
//! - [`get_highlighted`] holds the decisions made in reading the selected
//!   text and in typing text in its place.
//! - [`text`] holds small operations on strings.
//! - [`platform`] holds the report of an operation that a platform lacks.
//!
//! Nothing here calls the operating system: every function works on values
//! handed to it.

pub mod get_highlighted;
pub mod keyboard_mapping;
pub mod platform;
pub mod text;

pub use keyboard_mapping::{
    get_text_leyaout_map, shift_text_language, InverseMap, KeyboardDirection, KeyboardLayout,
    LayoutMap,
};
