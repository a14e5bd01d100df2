//! Coordinate values used to reference specific locations within parser input.

use vstd::prelude::*;

verus! {

/// A position within the parser input: an absolute character offset together
/// with a line and column, used for diagnostics.
///
/// `line` starts at 1 and `column` at 0; every consumed character increments
/// `absolute` and `column` by one, and a newline additionally increments
/// `line` and resets `column` to 0.
#[derive(Debug, Copy, Clone, PartialEq, Eq, Structural)]
pub struct ParserCoords {
    /// The absolute character position
    pub absolute: usize,
    /// The row position
    pub line: usize,
    /// The column position
    pub column: usize,
}

impl ParserCoords {
    /// The coordinates of the start of any input: offset 0, line 1, column 0.
    pub open spec fn start() -> ParserCoords {
        ParserCoords { absolute: 0, line: 1, column: 0 }
    }

    /// The coordinates after consuming one more character `c`: `absolute`
    /// always advances by one; a newline bumps `line` and resets `column`,
    /// any other character advances `column`.
    pub open spec fn stepped(self, c: char) -> ParserCoords {
        if c == '\n' {
            ParserCoords {
                absolute: (self.absolute + 1) as usize,
                line: (self.line + 1) as usize,
                column: 0,
            }
        } else {
            ParserCoords {
                absolute: (self.absolute + 1) as usize,
                line: self.line,
                column: (self.column + 1) as usize,
            }
        }
    }

    /// The length of the span between two coordinates of the same stream,
    /// based on the absolute offsets alone.
    pub fn delta(self, rhs: ParserCoords) -> (r: usize)
        requires
            rhs.absolute <= self.absolute,
        ensures
            r == self.absolute - rhs.absolute,
    {
        self.absolute - rhs.absolute
    }
}

impl Default for ParserCoords {
    /// The default set of coordinates is positioned at the start of the first row.
    fn default() -> (r: ParserCoords)
        ensures
            r == ParserCoords::start(),
    {
        ParserCoords { absolute: 0, line: 1, column: 0 }
    }
}

/// The coordinates after stepping over each character of `cs` in turn.
pub open spec fn coords_after(cs: Seq<char>, start: ParserCoords) -> ParserCoords
    decreases cs.len(),
{
    if cs.len() == 0 {
        start
    } else {
        coords_after(cs.drop_first(), start.stepped(cs.first()))
    }
}

/// Stepping over a sequence of characters advances the absolute offset by
/// exactly one per character, as long as the count stays within machine
/// limits.
pub proof fn lemma_coords_after_absolute(cs: Seq<char>, start: ParserCoords)
    requires
        start.absolute + cs.len() <= usize::MAX,
    ensures
        coords_after(cs, start).absolute == start.absolute + cs.len(),
    decreases cs.len(),
{
    if cs.len() > 0 {
        lemma_coords_after_absolute(cs.drop_first(), start.stepped(cs.first()));
    }
}

/// Coordinates advance by exactly one absolute position per consumed
/// character; a newline increments the line and resets the column to zero,
/// while any other character leaves the line alone and advances the column.
pub proof fn lemma_coords_step(p: ParserCoords, c: char)
    requires
        p.absolute < usize::MAX,
        p.line < usize::MAX,
        p.column < usize::MAX,
    ensures
        p.stepped(c).absolute == p.absolute + 1,
        c == '\n' ==> p.stepped(c).line == p.line + 1 && p.stepped(c).column == 0,
        c != '\n' ==> p.stepped(c).line == p.line && p.stepped(c).column == p.column + 1,
{
}

} // verus!
