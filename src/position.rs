//! Source positions and values tagged with the position they begin at.
use vstd::prelude::*;

verus! {

/// A zero-based position in a query document.
#[derive(Clone, Copy, Debug, PartialEq, Eq, PartialOrd, Ord, Hash, Structural)]
pub struct SourcePosition {
    pub line: u32,
    pub column: u32,
}

impl SourcePosition {
    /// A position at the given zero-based line and column.
    pub fn new(line: u32, column: u32) -> (r: SourcePosition)
        ensures
            r.line == line,
            r.column == column,
    {
        SourcePosition { line, column }
    }

    /// The position at the start of a document.
    pub fn origin() -> (r: SourcePosition)
        ensures
            r.line == 0,
            r.column == 0,
    {
        SourcePosition { line: 0, column: 0 }
    }
}

/// A payload tagged with the position at which it began.
#[derive(Clone, Debug)]
pub struct Spanning<T> {
    pub item: T,
    pub start: SourcePosition,
}

impl<T> Spanning<T> {
    /// Tags `item` with the position `start`.
    pub fn new(item: T, start: SourcePosition) -> (r: Spanning<T>)
        ensures
            r.item == item,
            r.start == start,
    {
        Spanning { item, start }
    }

    /// Tags `item` with the origin, for values that come from no document.
    pub fn unlocated(item: T) -> (r: Spanning<T>)
        ensures
            r.item == item,
            r.start == SourcePosition::origin_spec(),
    {
        Spanning { item, start: SourcePosition::origin() }
    }
}

impl SourcePosition {
    pub open spec fn origin_spec() -> SourcePosition {
        SourcePosition { line: 0, column: 0 }
    }
}

} // verus!
