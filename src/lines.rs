//! Line and column tracking over source characters.

use vstd::prelude::*;

verus! {

/// The line (from 1) and column (from 0) reached after reading `s` from the start.
pub open spec fn position_after(s: Seq<char>) -> (int, int)
    decreases s.len(),
{
    if s.len() == 0 {
        (1, 0)
    } else {
        let p = position_after(s.drop_last());
        if s.last() == '\n' {
            (p.0 + 1, 0)
        } else {
            (p.0, p.1 + 1)
        }
    }
}

/// The current line and column while reading a source text.
pub struct LineTracker {
    pub line: usize,
    pub column: usize,
}

impl LineTracker {
    /// At the start of a text: line 1, column 0.
    pub fn new() -> (r: LineTracker)
        ensures
            r.line == 1,
            r.column == 0,
    {
        LineTracker { line: 1, column: 0 }
    }

    /// Moves past `c`: a newline starts the next line, anything else moves one column.
    pub fn advance(&mut self, c: char)
        requires
            c == '\n' ==> old(self).line < usize::MAX,
            c != '\n' ==> old(self).column < usize::MAX,
        ensures
            c == '\n' ==> final(self).line == old(self).line + 1 && final(self).column == 0,
            c != '\n' ==> final(self).line == old(self).line && final(self).column == old(self).column + 1,
    {
        if c == '\n' {
            self.line = self.line + 1;
            self.column = 0;
        } else {
            self.column = self.column + 1;
        }
    }

    /// The current line and column.
    pub fn position(&self) -> (r: (usize, usize))
        ensures
            r == (self.line, self.column),
    {
        (self.line, self.column)
    }
}

} // verus!
