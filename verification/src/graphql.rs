//! The source position a GraphQL error points at.

use vstd::prelude::*;

verus! {

/// The error location: a line and column in the originating request's
/// GraphQL document, both positive per the GraphQL spec.
#[derive(Clone, Copy, PartialEq, Eq, Structural, Debug)]
pub struct Location {
    /// The line number.
    pub line: u32,
    /// The column number.
    pub column: u32,
}

impl Location {
    /// Builds a location from its line and column.
    pub fn new(line: u32, column: u32) -> (r: Location)
        ensures
            r.line == line,
            r.column == column,
    {
        Location { line, column }
    }
}

} // verus!
