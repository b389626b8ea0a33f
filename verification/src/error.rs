//! The loop-level failure: what went wrong, by kind, with the detail passed
//! through as text.

use vstd::prelude::*;

verus! {

/// A loop-level failure.
#[derive(Debug, Clone, PartialEq, Eq)]
pub enum Error {
    /// Reading or writing the event stream failed; the message of the I/O
    /// error.
    Io(String),
    /// A discussion could not be assembled.
    Discussion(String),
    /// An undo could not be carried out.
    Undo(String),
    /// A skill could not be loaded.
    Skill(String),
}

} // verus!
