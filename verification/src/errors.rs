//! Recoverable error values surfaced by the editing core.

use vstd::prelude::*;

verus! {

/// A save was attempted while no file name is bound to the session.
/// User-facing and recoverable: the session reports it and continues.
#[derive(Debug, Clone, PartialEq, Eq, Structural)]
pub struct FileNameError;

impl FileNameError {
    /// The user-facing wording of this condition.
    pub fn message(&self) -> (r: String)
        ensures
            r@ == "filename should be provided in order to write file"@,
    {
        "filename should be provided in order to write file".to_owned()
    }
}

/// A buffer address (line or column) outside the valid range.
#[derive(Debug, Clone, Copy, PartialEq, Eq, Structural)]
pub struct IndexOutOfRange;

impl IndexOutOfRange {
    /// The user-facing wording of this condition.
    pub fn message(&self) -> (r: String)
        ensures
            r@ == "index out of range"@,
    {
        "index out of range".to_owned()
    }
}

} // verus!
