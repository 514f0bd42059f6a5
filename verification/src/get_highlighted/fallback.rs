//! Selected text on a platform that has no way of reading or replacing it:
//! every operation reports that it is not implemented.

use crate::platform::Unsupported;
use vstd::prelude::*;

verus! {

/// The report for an operation of this part of the library.
pub open spec fn not_implemented(operation: &'static str) -> Unsupported {
    Unsupported { module: "get_highlighted", operation }
}

/// Reports that the selected text cannot be read on this platform.
pub fn get_highlighted_text() -> (text: Result<Option<String>, Unsupported>)
    ensures
        text == Err::<Option<String>, Unsupported>(not_implemented("get_highlighted_text")),
{
    Err(Unsupported { module: "get_highlighted", operation: "get_highlighted_text" })
}

/// Reports that the selected text cannot be replaced on this platform.
pub fn replace_highlighted_text(_new_text: &str) -> (done: Result<(), Unsupported>)
    ensures
        done == Err::<(), Unsupported>(not_implemented("replace_highlighted_text")),
{
    Err(Unsupported { module: "get_highlighted", operation: "replace_highlighted_text" })
}

} // verus!
