//! Places in a document, in lines and characters.

use vstd::prelude::*;

verus! {

/// A place in a document: a line and a character on it, both counted from 0.
#[derive(Debug, Clone, Copy, PartialEq, Eq, Structural)]
pub struct Position {
    pub line: u32,
    pub character: u32,
}

/// The stretch of a document between two positions.
#[derive(Debug, Clone, Copy, PartialEq, Eq, Structural)]
pub struct TextRange {
    pub start: Position,
    pub end: Position,
}

/// A range in the document that a URI names.
#[derive(Debug)]
pub struct Location {
    pub uri: String,
    pub range: TextRange,
}

/// A location, its URI as a sequence of characters.
pub struct LocationView {
    pub uri: Seq<char>,
    pub range: TextRange,
}

impl View for Location {
    type V = LocationView;

    open spec fn view(&self) -> LocationView {
        LocationView { uri: self.uri@, range: self.range }
    }
}

impl Clone for Location {
    fn clone(&self) -> (copy: Location)
        ensures
            copy@ == self@,
    {
        Location { uri: self.uri.clone(), range: self.range }
    }
}

/// The range that a syntax node's range covers, its rows as lines and its
/// columns as characters, each cut to 32 bits.
pub open spec fn range_of(range: tree_sitter::Range) -> TextRange {
    TextRange {
        start: Position {
            line: range.start_point.row as u32,
            character: range.start_point.column as u32,
        },
        end: Position {
            line: range.end_point.row as u32,
            character: range.end_point.column as u32,
        },
    }
}

/// The location of a syntax node's range in the document `uri`.
pub fn to_location(range: &tree_sitter::Range, uri: &str) -> (location: Location)
    ensures
        location@ == (LocationView { uri: uri@, range: range_of(*range) }),
{
    Location {
        uri: String::from_str(uri),
        range: TextRange {
            start: Position {
                line: #[verifier::truncate] (range.start_point.row as u32),
                character: #[verifier::truncate] (range.start_point.column as u32),
            },
            end: Position {
                line: #[verifier::truncate] (range.end_point.row as u32),
                character: #[verifier::truncate] (range.end_point.column as u32),
            },
        },
    }
}

} // verus!
