use vstd::prelude::*;

verus! {

/// A place in a document: a zero-based line and a zero-based column on that line.
#[derive(Clone, Copy, Debug, PartialEq, Eq, Structural)]
pub struct Position {
    pub line: u32,
    pub character: u32,
}

/// The span between two positions of a document.
#[derive(Clone, Copy, Debug, PartialEq, Eq, Structural)]
pub struct Range {
    pub start: Position,
    pub end: Position,
}

impl Position {
    /// Document order: a position comes before another when it is on an
    /// earlier line, or on the same line at a column that is not later.
    pub open spec fn spec_le(self, other: Position) -> bool {
        self.line < other.line || (self.line == other.line && self.character <= other.character)
    }

    /// Whether `self` is at or before `other` in document order.
    pub fn le(&self, other: &Position) -> (r: bool)
        ensures
            r == self.spec_le(*other),
    {
        self.line < other.line || (self.line == other.line && self.character <= other.character)
    }
}

impl Range {
    /// A range holds a position when the position lies between its two ends,
    /// either end included.
    pub open spec fn spec_contains(self, position: Position) -> bool {
        self.start.spec_le(position) && position.spec_le(self.end)
    }

    /// Whether `position` lies within the range, either end included.
    pub fn contains(&self, position: &Position) -> (r: bool)
        ensures
            r == self.spec_contains(*position),
    {
        self.start.le(position) && position.le(&self.end)
    }
}

} // verus!
