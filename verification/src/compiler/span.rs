//! Structures which provide information about the position of part of some
//! source code.

use vstd::prelude::*;

verus! {

/// Describes the position of some text in a source, as a half-open interval
/// of grapheme offsets.
#[derive(Clone, Copy, Debug, PartialEq, Eq, Structural)]
pub struct Span {
    /// The start position (inclusive) in the source, measured in graphemes.
    pub start: usize,

    /// The end position (exclusive) in the source, measured in graphemes.
    pub end: usize,
}

impl Span {
    /// Create a new [`Span`].
    ///
    /// # Arguments
    ///
    /// * `start` - The start index of the span (inclusive).
    /// * `end` - The end index of the span (exclusive).
    ///
    /// # Returns
    ///
    /// A new [`Span`].
    pub fn new(start: usize, end: usize) -> (r: Span)
        requires
            start <= end,
        ensures
            r.start == start,
            r.end == end,
    {
        Span { start, end }
    }
}

} // verus!
