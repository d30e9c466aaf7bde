//! Half-open byte spans into a source line, attached to expressions and
//! diagnostics.

use vstd::prelude::*;

verus! {

/// A half-open range `[start, end)` of byte offsets into the source line.
#[derive(Debug, Clone, Copy, PartialEq, Eq, Structural)]
pub struct Span {
    pub start: usize,
    pub end: usize,
}

impl Span {
    pub open spec fn spec_start(&self) -> usize {
        self.start
    }

    pub open spec fn spec_end(&self) -> usize {
        self.end
    }

    pub fn new(start: usize, end: usize) -> (s: Span)
        ensures
            s.spec_start() == start,
            s.spec_end() == end,
    {
        Span { start, end }
    }

    pub fn start(&self) -> (r: usize)
        ensures
            r == self.spec_start(),
    {
        self.start
    }

    pub fn end(&self) -> (r: usize)
        ensures
            r == self.spec_end(),
    {
        self.end
    }

    /// The smallest span covering both `self` and `other`.
    pub fn merge(&self, other: Span) -> (r: Span)
        ensures
            r.spec_start() == if self.spec_start() < other.spec_start() {
                self.spec_start()
            } else {
                other.spec_start()
            },
            r.spec_end() == if self.spec_end() > other.spec_end() {
                self.spec_end()
            } else {
                other.spec_end()
            },
    {
        Span {
            start: if self.start < other.start {
                self.start
            } else {
                other.start
            },
            end: if self.end > other.end {
                self.end
            } else {
                other.end
            },
        }
    }
}

} // verus!
