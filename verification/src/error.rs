use vstd::prelude::*;

verus! {

/// Why a database file could not be decoded or a query could not be answered.
#[derive(Clone, Copy, Debug, PartialEq, Eq, Structural)]
pub enum DbError {
    /// The bytes break the file format: a wrong signature, an invalid page
    /// size, an unknown page type, a malformed record.
    Format,
    /// An offset, a pointer or a length reaches outside the buffer, or a walk
    /// visits more pages than the file holds.
    Bounds,
    /// The schema lists no table of the requested name.
    NotFound,
    /// The file uses a part of the format that this library does not read:
    /// index pages, text that is not UTF-8.
    Unsupported,
}

} // verus!
