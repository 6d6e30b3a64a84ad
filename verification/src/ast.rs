//! Source positions for tokens and trees.

use vstd::prelude::*;

verus! {

/// A byte-offset range into the original source text, end-exclusive.
#[derive(Debug, Clone, Copy, PartialEq, Eq, Structural)]
pub struct Sp {
    /// In bytes.
    pub start: usize,
    /// In bytes also (non-inclusive).
    pub end: usize,
}

impl Sp {
    /// The union of two spans: from the earlier start to the later end.
    pub open spec fn spec_merge(a: Sp, b: Sp) -> Sp {
        Sp {
            start: if a.start <= b.start {
                a.start
            } else {
                b.start
            },
            end: if a.end >= b.end {
                a.end
            } else {
                b.end
            },
        }
    }

    pub fn new(start: usize, end: usize) -> (s: Sp)
        ensures
            s == (Sp { start, end }),
    {
        Sp { start, end }
    }

    /// The smallest span covering both `self` and `rhs`.
    pub fn merge(&self, rhs: &Sp) -> (s: Sp)
        ensures
            s == Sp::spec_merge(*self, *rhs),
    {
        Sp::new(
            if self.start <= rhs.start {
                self.start
            } else {
                rhs.start
            },
            if self.end >= rhs.end {
                self.end
            } else {
                rhs.end
            },
        )
    }
}

} // verus!
