use vstd::prelude::*;

verus! {

/// How far up the directory tree a search may go.
#[derive(Clone, Copy, Debug, PartialEq, Eq, Structural)]
pub enum SearchDepth {
    /// No limit: the search goes on until the filesystem root.
    Unlimited,
    /// The search stops after this many upward steps without a match.
    Limited(usize),
}

impl SearchDepth {
    /// Whether a search that has taken `depth` upward steps must stop.
    pub open spec fn exceeded(self, depth: nat) -> bool {
        match self {
            SearchDepth::Unlimited => false,
            SearchDepth::Limited(n) => depth >= n,
        }
    }

    pub fn is_exceeded(&self, depth: usize) -> (r: bool)
        ensures
            r == self.exceeded(depth as nat),
    {
        match self {
            SearchDepth::Unlimited => false,
            SearchDepth::Limited(n) => depth >= *n,
        }
    }
}

} // verus!
