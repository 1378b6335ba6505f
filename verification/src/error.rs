//! Error taxonomy of the search core.

use vstd::prelude::*;

verus! {

/// Errors surfaced by the search subsystem.
///
/// `Parse` is client-facing (malformed free-text query); `Backend` is
/// server-facing (index I/O or engine failure); `IndexMissing` means no index
/// exists where one was expected and triggers the fallback path;
/// `SchemaMismatch` is the fatal startup error raised when an on-disk index
/// does not carry the running schema definition.
#[derive(Debug)]
pub enum SearchError {
    Parse(String),
    Backend(String),
    IndexMissing,
    SchemaMismatch,
}

/// The result carries the client-facing malformed-query error.
pub open spec fn is_parse_err<T>(r: Result<T, SearchError>) -> bool {
    r matches Err(e) && e is Parse
}

impl SearchError {
    /// True for the client-facing malformed-query error.
    pub fn is_parse(&self) -> (r: bool)
        ensures
            r == (self is Parse),
    {
        match self {
            SearchError::Parse(_) => true,
            _ => false,
        }
    }

    /// True when the error means that no index exists yet.
    pub fn is_index_missing(&self) -> (r: bool)
        ensures
            r == (self is IndexMissing),
    {
        match self {
            SearchError::IndexMissing => true,
            _ => false,
        }
    }

    /// True for the fatal startup error of an index whose embedded schema
    /// differs from the running definition.
    pub fn is_schema_mismatch(&self) -> (r: bool)
        ensures
            r == (self is SchemaMismatch),
    {
        match self {
            SearchError::SchemaMismatch => true,
            _ => false,
        }
    }
}

} // verus!
