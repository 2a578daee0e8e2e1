//! The error taxonomy of the transform pipeline.

use vstd::prelude::*;

verus! {

/// Every failure of the pipeline, kept distinguishable for callers and
/// tests even though a host may collapse them into one generic signal.
#[derive(Clone, Copy, Debug, PartialEq, Eq, Structural)]
pub enum TransformError {
    /// The input bytes are not a parseable ZIP container.
    ArchiveOpenError,
    /// No entry name matches the target naming rule.
    NotFound,
    /// The target entry could not be fully read.
    ReadError,
    /// The target entry's content is not valid UTF-8.
    InvalidText,
    /// A malformed or unsupported unicode escape sequence was met.
    InvalidEscape,
    /// Copying an entry or writing the new archive failed.
    BuildError,
}

} // verus!
