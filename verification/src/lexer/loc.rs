//! Source positions.

use vstd::prelude::*;

verus! {

/// Line number of the first line of a text.
pub const FIRST_LINE: u32 = 1;

/// Column number of the first character of a line.
pub const FIRST_COL: u32 = 1;

/// A position in source text. Both numbers are 1-based and stop counting at `u32::MAX`.
#[derive(Debug, Clone, Copy, PartialEq, Eq, Structural)]
pub struct Loc {
    /// 1-based line
    pub line: u32,
    /// 1-based column, counted in characters
    pub col: u32,
}

/// `n + 1`, except that counting stops at `u32::MAX`.
pub open spec fn bump(n: u32) -> u32 {
    if n < u32::MAX {
        (n + 1) as u32
    } else {
        n
    }
}

/// The position of the first character of a text.
pub open spec fn loc_start() -> Loc {
    Loc { line: FIRST_LINE, col: FIRST_COL }
}

/// The position that follows `loc` once the character `c` has been read:
/// a line feed starts the next line, any other character moves one column on.
pub open spec fn loc_step(loc: Loc, c: char) -> Loc {
    if c == '\n' {
        Loc { line: bump(loc.line), col: FIRST_COL }
    } else {
        Loc { line: loc.line, col: bump(loc.col) }
    }
}

/// The position of the character at index `pos` of `input`
/// (or of the end of input, for `pos == input.len()`).
pub open spec fn loc_at(input: Seq<char>, pos: int) -> Loc
    decreases pos,
{
    if pos <= 0 || pos > input.len() {
        loc_start()
    } else {
        loc_step(loc_at(input, pos - 1), input[pos - 1])
    }
}

/// Lines and columns are counted from 1.
pub proof fn law_positions_count_from_one(input: Seq<char>, pos: int)
    ensures
        loc_at(input, pos).line >= 1,
        loc_at(input, pos).col >= 1,
    decreases pos,
{
    if 0 < pos <= input.len() {
        law_positions_count_from_one(input, pos - 1);
    }
}

impl Loc {
    /// The position of the first character of a text.
    pub fn start() -> (r: Loc)
        ensures
            r == loc_start(),
    {
        Loc { line: FIRST_LINE, col: FIRST_COL }
    }

    /// The position after reading `c` at this position.
    pub fn step(self, c: char) -> (r: Loc)
        ensures
            r == loc_step(self, c),
    {
        if c == '\n' {
            Loc { line: if self.line < u32::MAX { self.line + 1 } else { self.line }, col: FIRST_COL }
        } else {
            Loc { line: self.line, col: if self.col < u32::MAX { self.col + 1 } else { self.col } }
        }
    }
}

} // verus!
