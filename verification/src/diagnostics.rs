use vstd::prelude::*;

verus! {

/// Index of a source file.
pub type FileId = usize;

/// A byte range `lo..hi` in one source file.
#[derive(Debug, Clone, Copy, PartialEq, Eq)]
pub struct Span {
    pub file: FileId,
    pub lo: usize,
    pub hi: usize,
}

impl Span {
    pub fn new(file: FileId, lo: usize, hi: usize) -> (s: Self)
        ensures
            s == (Span { file, lo, hi }),
    {
        Span { file, lo, hi }
    }

    /// The smallest span that covers both spans; both must lie in the same file.
    pub open spec fn spec_join(self, other: Span) -> Span {
        Span {
            file: self.file,
            lo: if self.lo <= other.lo { self.lo } else { other.lo },
            hi: if self.hi >= other.hi { self.hi } else { other.hi },
        }
    }

    /// The joined span covers both spans, is the smallest span that does,
    /// and does not depend on the order of the two.
    pub proof fn lemma_join(self, other: Span)
        ensures
            self.spec_join(other).lo <= self.lo && self.spec_join(other).lo <= other.lo,
            self.spec_join(other).hi >= self.hi && self.spec_join(other).hi >= other.hi,
            self.spec_join(other).lo == self.lo || self.spec_join(other).lo == other.lo,
            self.spec_join(other).hi == self.hi || self.spec_join(other).hi == other.hi,
            self.file == other.file ==> self.spec_join(other) == other.spec_join(self),
    {
    }

    pub fn join(self, other: Span) -> (s: Span)
        requires
            self.file == other.file,
        ensures
            s == self.spec_join(other),
    {
        Span {
            file: self.file,
            lo: if self.lo <= other.lo { self.lo } else { other.lo },
            hi: if self.hi >= other.hi { self.hi } else { other.hi },
        }
    }
}

} // verus!
