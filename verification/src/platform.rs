//! What is reported on a platform for which an operation is not
//! implemented.

use vstd::prelude::*;
use vstd::string::StringExecFns;

verus! {

broadcast use vstd::string::group_string_axioms;

/// The report that an operation is not implemented for this platform.
#[derive(Debug, Clone, Copy, PartialEq, Eq)]
pub struct Unsupported {
    /// The part of the library that the operation belongs to.
    pub module: &'static str,
    /// The name of the operation.
    pub operation: &'static str,
}

impl Unsupported {
    /// The report in words.
    pub open spec fn spec_message(self) -> Seq<char> {
        self.module@ + ": "@ + self.operation@ + " is not implemented for this OS"@
    }

    /// The report in words: the part of the library, the operation, and
    /// that it is not implemented for this OS.
    pub fn message(&self) -> (message: String)
        ensures
            message@ == self.spec_message(),
    {
        let mut message = self.module.to_owned();
        message.append(": ");
        message.append(self.operation);
        message.append(" is not implemented for this OS");
        message
    }
}

} // verus!
