//! The value a search is asked with, and the ways one can fail.

use vstd::prelude::*;

verus! {

/// One search: a pattern and the path of the file whose lines are searched.
/// Immutable once constructed; the pattern may be empty, in which case it
/// matches every line. The source must name a readable file at the time the
/// search runs; that is checked only when the file is opened.
#[derive(Debug)]
pub struct SearchRequest {
    pub pattern: String,
    pub source: String,
}

/// Why a search failed. Every failure is terminal for its run: nothing is
/// retried, and lines already written stay written.
#[derive(Debug, PartialEq, Eq)]
pub enum SearchError {
    /// The source path could not be opened for reading (missing file,
    /// permission denied, not a file). Carries the path and the cause.
    Open { path: String, cause: String },
    /// A line could not be read or decoded from the otherwise-open file.
    Read { cause: String },
    /// The output sink rejected a write (closed pipe, full disk, ...).
    Write { cause: String },
}

} // verus!
