//! Line/column tracking for source positions.
//!
//! A position starts at line 1, column 1. Consuming a newline moves to the
//! next line and resets the column; consuming any other character moves one
//! column to the right.

use vstd::prelude::*;

verus! {

/// A 1-indexed line/column position in a source buffer.
#[derive(Debug, Clone, Copy, PartialEq, Eq, Structural)]
pub struct SrcPos {
    line: usize,
    col: usize,
}

impl SrcPos {
    /// The current line, 1-indexed.
    pub closed spec fn line(&self) -> int {
        self.line as int
    }

    /// The current column, 1-indexed.
    pub closed spec fn col(&self) -> int {
        self.col as int
    }

    /// A fresh position: line 1, column 1.
    pub fn build() -> (p: SrcPos)
        ensures
            p.line() == 1,
            p.col() == 1,
    {
        SrcPos { line: 1, col: 1 }
    }

    /// Advances the position past one consumed character: a newline starts a
    /// new line at column 1, any other character moves one column right.
    pub fn update(&mut self, ch: char)
        requires
            ch == '\n' ==> old(self).line() < usize::MAX,
            ch != '\n' ==> old(self).col() < usize::MAX,
        ensures
            ch == '\n' ==> final(self).line() == old(self).line() + 1 && final(self).col() == 1,
            ch != '\n' ==> final(self).line() == old(self).line() && final(self).col() == old(
                self,
            ).col() + 1,
    {
        if ch == '\n' {
            self.line = self.line + 1;
            self.col = 1;
        } else {
            self.col = self.col + 1;
        }
    }

    /// The position as a `(line, column)` pair.
    pub fn position(&self) -> (r: (usize, usize))
        ensures
            r.0 as int == self.line(),
            r.1 as int == self.col(),
    {
        (self.line, self.col)
    }
}

} // verus!
