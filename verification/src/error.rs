//! The failures a run can end in.

use vstd::prelude::*;

verus! {

/// Why a request was refused. Every kind is fatal to the request that raised it.
#[derive(Clone, Copy, Debug, PartialEq, Eq, Structural)]
pub enum Error {
    /// The data directory does not exist.
    NotFound,
    /// The data path exists but is not a directory.
    NotADirectory,
    /// Partitions disagree on their schema, or a row disagrees with the schema
    /// of its partition.
    SchemaMismatch,
    /// A plan refers to an unknown table or column, or breaks the grouping rule.
    InvalidPlan,
    /// A textual query lies outside the supported grammar.
    UnsupportedQuery,
    /// An operation is applied to a column of a type it is not defined on.
    TypeError,
}

/// An executable outcome agrees with a specified one: both succeed and the
/// value is seen as the specified one, or both fail with the same error.
pub open spec fn agrees<T: View>(r: Result<T, Error>, expected: Result<T::V, Error>) -> bool {
    match (r, expected) {
        (Ok(a), Ok(b)) => a@ == b,
        (Err(e), Err(f)) => e == f,
        _ => false,
    }
}

} // verus!
