//! Byte-offset source locations.
//!
//! A [`Span`] is a half-open range `[start, end)` of byte offsets into the
//! source text. Every token and every syntax-tree node reports its position
//! through one, so diagnostics can point back into the original buffer.

use vstd::prelude::*;

verus! {

/// A half-open byte-offset range `[start, end)` into the source text.
#[derive(Debug, Clone, Copy, PartialEq)]
pub struct Span {
    pub start: usize,
    pub end: usize,
}

impl Span {
    /// Builds the span `[start, end)`.
    pub fn new(start: usize, end: usize) -> (s: Span)
        ensures
            s.start == start,
            s.end == end,
    {
        Span { start, end }
    }
}

impl From<std::ops::Range<usize>> for Span {
    /// Builds the span covering the byte range `value`.
    fn from(value: std::ops::Range<usize>) -> (s: Span) {
        Span { start: value.start, end: value.end }
    }
}

impl vstd::std_specs::convert::FromSpecImpl<std::ops::Range<usize>> for Span {
    open spec fn obeys_from_spec() -> bool {
        true
    }

    open spec fn from_spec(value: std::ops::Range<usize>) -> Span {
        Span { start: value.start, end: value.end }
    }
}

/// A value that can report the byte range of source text it was read from.
///
/// `spec_span` is the mathematical description of that range; `span` is the
/// executable accessor and always returns exactly `spec_span`.
pub trait Spanned {
    /// The span this value covers, as a specification-level function.
    spec fn spec_span(&self) -> Span;

    /// Returns the span this value covers.
    fn span(&self) -> (s: Span)
        ensures
            s == self.spec_span(),
    ;
}

} // verus!
