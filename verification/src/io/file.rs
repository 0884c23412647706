//! Files that hold a journal.

use vstd::prelude::*;

verus! {

/// Different errors that can happen while reading a file.
#[derive(Debug, PartialEq, Eq, Clone, Copy, Structural)]
pub enum FileError {
    /// There is no file at the path.
    NotFound,
    /// The file is there and could not be read.
    Unknown,
}

} // verus!
