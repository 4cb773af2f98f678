//! The error taxonomy: a file-level I/O failure or a schema failure.
//!
//! Either one is fatal to the whole read or write that raised it; nothing is
//! recovered or partially applied.

use vstd::prelude::*;

verus! {

/// Why a save could not be read or written.
#[derive(Debug)]
pub enum SaveError {
    /// The file could not be read or written.  Raised by the I/O shell
    /// around the library, never by the codec itself.
    Io(String),
    /// The document text is malformed, a known field has an incompatible
    /// JSON type, a nested document string does not parse, or a sentinel
    /// field holds an unrecognized string.
    Schema(String),
}

impl SaveError {
    /// A human-readable description.
    pub fn message(&self) -> (r: &str)
        ensures
            r@ == match self {
                SaveError::Io(m) => m@,
                SaveError::Schema(m) => m@,
            },
    {
        match self {
            SaveError::Io(m) => m.as_str(),
            SaveError::Schema(m) => m.as_str(),
        }
    }
}

/// A schema error carrying `what` as its description.
pub(crate) fn schema_error(what: &str) -> (r: SaveError)
    ensures
        r is Schema,
{
    SaveError::Schema(what.to_owned())
}

} // verus!
