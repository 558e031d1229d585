//! Source positions.

use vstd::prelude::*;

verus! {

/// A half-open range `start..end` of character offsets into a query string.
#[derive(Clone, Copy, Debug, PartialEq, Eq, Structural)]
pub struct Span {
    pub start: usize,
    pub end: usize,
}

impl Span {
    /// The span is a range that lies inside a text of `len` characters.
    pub open spec fn within(self, len: int) -> bool {
        self.start <= self.end <= len
    }

    pub fn new(start: usize, end: usize) -> (span: Span)
        ensures
            span.start == start,
            span.end == end,
    {
        Span { start, end }
    }
}

} // verus!
