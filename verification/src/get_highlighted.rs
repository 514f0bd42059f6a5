//! Reading the text that is selected on screen, and typing text in its
//! place: the decisions, apart from the system calls that carry them out.

pub mod fallback;
pub mod linux;
pub mod windows;
