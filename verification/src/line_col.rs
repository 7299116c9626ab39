use vstd::prelude::*;

verus! {

/// A position in a source file: line and column.
#[derive(Debug, Clone, Copy, PartialEq, Eq, Structural, PartialOrd, Ord, Hash)]
pub struct LineCol {
    pub line: usize,
    pub col: usize,
}

impl LineCol {
    pub fn new(line: usize, col: usize) -> (r: Self)
        ensures
            r.line == line,
            r.col == col,
    {
        LineCol { line, col }
    }

    /// The position used when the location of code is not known.
    pub fn unknown() -> (r: Self)
        ensures
            r.line == 0,
            r.col == 0,
    {
        Self::new(0, 0)
    }
}

impl From<(usize, usize)> for LineCol {
    /// The position with the pair's line and column.
    fn from(p: (usize, usize)) -> (r: Self) {
        LineCol::new(p.0, p.1)
    }
}

impl vstd::std_specs::convert::FromSpecImpl<(usize, usize)> for LineCol {
    open spec fn obeys_from_spec() -> bool {
        true
    }

    open spec fn from_spec(p: (usize, usize)) -> Self {
        LineCol { line: p.0, col: p.1 }
    }
}

} // verus!
