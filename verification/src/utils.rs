//! Whether a position lies in a range.

use crate::location::Position;
use vstd::prelude::*;

verus! {

/// Whether a syntax node's range holds a position: the range lies on the
/// position's line and its columns enclose the position's character.
pub open spec fn range_includes(range: tree_sitter::Range, position: Position) -> bool {
    &&& range.start_point.row == position.line
    &&& range.start_point.column <= position.character
    &&& range.end_point.row == position.line
    &&& range.end_point.column >= position.character
}

/// A range that can tell whether it holds a position.
pub trait PositionInRange {
    /// Whether the range holds the position.
    spec fn includes_spec(&self, position: &Position) -> bool;

    fn includes(&self, position: &Position) -> (inside: bool)
        ensures
            inside == self.includes_spec(position),
    ;
}

impl PositionInRange for tree_sitter::Range {
    open spec fn includes_spec(&self, position: &Position) -> bool {
        range_includes(*self, *position)
    }

    fn includes(&self, position: &Position) -> (inside: bool) {
        self.start_point.row == position.line as usize && self.start_point.column
            <= position.character as usize && self.end_point.row == position.line as usize
            && self.end_point.column >= position.character as usize
    }
}

} // verus!
