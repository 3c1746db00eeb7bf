//! Source locations attached to values and errors.

use vstd::prelude::*;

verus! {

/// A byte range into one source text.
#[derive(Clone, Copy, Debug, PartialEq, Eq, Structural)]
pub struct Span {
    pub start: usize,
    pub end: usize,
    pub source: usize,
}

impl Span {
    /// A span over `start..end` of source `source`.
    pub fn new(start: usize, end: usize, source: usize) -> (s: Span)
        ensures
            s == (Span { start, end, source }),
    {
        Span { start, end, source }
    }

    /// The empty span used where no location is known.
    pub fn unknown() -> (s: Span)
        ensures
            s == (Span { start: 0, end: 0, source: 0 }),
    {
        Span { start: 0, end: 0, source: 0 }
    }
}

} // verus!
