//! Structural queries on PHP source, answered by tree-sitter.

use crate::syntax::QueryError::{BadPattern, NoGrammar, NoTree};
use tree_sitter::{Parser, Query, QueryCursor, Range};
use tree_sitter_php::language_php_only;
use vstd::prelude::*;
use vstd::slice::slice_subrange;
use vstd::utf8::{decode_utf8, valid_utf8};

verus! {

/// `tree_sitter::Point`: a row and a column, both counted from 0, the
/// column in bytes.
#[verifier::external_type_specification]
pub struct ExPoint(tree_sitter::Point);

/// `tree_sitter::Range`: where a node lies, in bytes and in points.
#[verifier::external_type_specification]
pub struct ExRange(tree_sitter::Range);

/// A node that a pattern captured.
pub struct Captured {
    /// Which of the query's capture names the node was captured under,
    /// counted in the order in which the names first occur in the query.
    pub index: u32,
    /// Where the node lies in the source.
    pub range: Range,
    /// Kind and place of the node just before it among its parent's children.
    pub lead: Option<(String, Range)>,
}

/// One match of a query: the pattern that matched and the nodes it captured.
pub struct QueryMatch {
    pub pattern_index: usize,
    pub captures: Vec<Captured>,
}

/// A captured node, its texts as sequences of characters.
pub struct CapturedView {
    pub index: u32,
    pub range: Range,
    pub lead: Option<(Seq<char>, Range)>,
}

/// A match, its captured nodes as a sequence.
pub struct QueryMatchView {
    pub pattern_index: usize,
    pub captures: Seq<CapturedView>,
}

impl View for Captured {
    type V = CapturedView;

    open spec fn view(&self) -> CapturedView {
        CapturedView {
            index: self.index,
            range: self.range,
            lead: match self.lead {
                Some(lead) => Some((lead.0@, lead.1)),
                None => None,
            },
        }
    }
}

impl View for QueryMatch {
    type V = QueryMatchView;

    open spec fn view(&self) -> QueryMatchView {
        QueryMatchView {
            pattern_index: self.pattern_index,
            captures: Seq::new(self.captures@.len(), |i: int| self.captures@[i]@),
        }
    }
}

/// The views of a list of matches.
pub open spec fn matches_view(found: Seq<QueryMatch>) -> Seq<QueryMatchView> {
    Seq::new(found.len(), |i: int| found[i]@)
}

/// Why a query gave no answer.
#[derive(Debug, Clone, Copy, PartialEq, Eq, Structural)]
pub enum QueryError {
    /// The parser does not take the grammar.
    NoGrammar,
    /// The parser gave no tree for the source.
    NoTree,
    /// The query does not compile.
    BadPattern,
}

/// The view of what a query gave.
pub open spec fn found_view(found: Result<Vec<QueryMatch>, QueryError>) -> Result<
    Seq<QueryMatchView>,
    QueryError,
> {
    match found {
        Ok(list) => Ok(matches_view(list@)),
        Err(e) => Err(e),
    }
}

/// Whether a source is ASCII: every byte is below 128.
pub open spec fn is_ascii_source(source: Seq<u8>) -> bool {
    forall|i: int| 0 <= i < source.len() ==> source[i] < 128
}

/// Whether a query is one of the patterns of this library. They are ASCII
/// and they compile.
pub open spec fn is_library_pattern(query: Seq<char>) -> bool {
    ||| query == crate::indexer::class_declaration::NAMESPACE_QUERY@
    ||| query == crate::indexer::class_declaration::CLASS_QUERY@
    ||| query == crate::indexer::class_declaration::METHOD_QUERY@
    ||| query == crate::resolver::USE_QUERY@
    ||| query == crate::resolver::ASSIGNMENT_QUERY@
    ||| query == crate::resolver::REFERENCE_QUERY@
    ||| query == crate::hover::HOVER_CALL_QUERY@
    ||| query == crate::hover::HOVER_CLASS_QUERY@
    ||| query == crate::completion::COMPLETION_QUERY@
}

/// What tree-sitter finds for one of the library's patterns on an ASCII
/// source: the matches in the order in which it yields them, or why it
/// gives none. Of other sources the name says nothing: there the PHP
/// scanner asks the C library what white space is, and the answer is the
/// machine's.
pub uninterp spec fn php_query_matches(source: Seq<u8>, query: Seq<char>) -> Result<
    Seq<QueryMatchView>,
    QueryError,
>;

/// Whether `found` can be what a query gives on a source: on an ASCII
/// source only what `php_query_matches` names, on another source anything.
pub open spec fn may_answer(
    source: Seq<u8>,
    query: Seq<char>,
    found: Result<Seq<QueryMatchView>, QueryError>,
) -> bool {
    is_ascii_source(source) ==> found == php_query_matches(source, query)
}

/// Gives a `tree_sitter::Parser` the grammar
/// `tree_sitter_php::language_php_only`, which takes PHP code with or without
/// an opening tag, parses `source` with `Parser::parse`, compiles `query`
/// with `tree_sitter::Query::new` and collects what
/// `tree_sitter::QueryCursor::matches` yields on the root node: of each match
/// its `pattern_index`, of each captured node its `index`, its `range`, and
/// the `kind` and `range` of its `prev_sibling`. The error tells which of
/// the three steps failed. Only the library's patterns are taken:
/// `Query::new` panics on some strings that do not compile. The contract
/// claims only that on an ASCII source the answer depends on the two
/// arguments alone; of the answer on another source it claims nothing.
#[verifier::external_body]
pub(crate) fn run_query(source: &[u8], query: &str) -> (found: Result<Vec<QueryMatch>, QueryError>)
    requires
        is_library_pattern(query@),
    ensures
        is_ascii_source(source@) ==> found_view(found) == php_query_matches(source@, query@),
{
    let mut parser = Parser::new();
    parser.set_language(language_php_only()).map_err(|_| NoGrammar)?;
    let tree = parser.parse(source, None).ok_or(NoTree)?;
    let query = Query::new(language_php_only(), query).map_err(|_| BadPattern)?;
    let mut cursor = QueryCursor::new();
    let found = cursor.matches(&query, tree.root_node(), source);
    Ok(found.map(|m| QueryMatch {
        pattern_index: m.pattern_index,
        captures: m.captures.iter().map(|c| Captured {
            index: c.index,
            range: c.node.range(),
            lead: c.node.prev_sibling().map(|s| (s.kind().into(), s.range())),
        }).collect(),
    }).collect())
}

/// Decodes bytes with `std::str::from_utf8`: a string exactly when the bytes
/// are valid UTF-8, and then the characters that they encode.
#[verifier::external_body]
pub(crate) fn utf8_text(bytes: &[u8]) -> (text: Option<String>)
    ensures
        text is Some <==> valid_utf8(bytes@),
        text matches Some(s) ==> s@ == decode_utf8(bytes@),
{
    std::str::from_utf8(bytes).ok().map(String::from)
}

/// The view of an optional string.
pub open spec fn opt_text(text: Option<String>) -> Option<Seq<char>> {
    match text {
        Some(s) => Some(s@),
        None => None,
    }
}

/// The text that a range covers: the bytes from `start_byte` up to
/// `end_byte`, decoded, where they lie in the source and are valid UTF-8.
pub open spec fn range_text(source: Seq<u8>, range: Range) -> Option<Seq<char>> {
    if range.start_byte <= range.end_byte <= source.len() && valid_utf8(
        source.subrange(range.start_byte as int, range.end_byte as int),
    ) {
        Some(decode_utf8(source.subrange(range.start_byte as int, range.end_byte as int)))
    } else {
        None
    }
}

/// The text that a range covers, or the empty text where it covers none.
pub open spec fn range_text_or_empty(source: Seq<u8>, range: Range) -> Seq<char> {
    match range_text(source, range) {
        Some(text) => text,
        None => Seq::empty(),
    }
}

/// The text that `range` covers in `source`.
pub fn text_at(source: &[u8], range: &Range) -> (text: Option<String>)
    ensures
        opt_text(text) == range_text(source@, *range),
{
    if range.start_byte <= range.end_byte && range.end_byte <= source.len() {
        utf8_text(slice_subrange(source, range.start_byte, range.end_byte))
    } else {
        None
    }
}

/// The text that `range` covers in `source`, or the empty string.
pub fn text_or_empty(source: &[u8], range: &Range) -> (text: String)
    ensures
        text@ == range_text_or_empty(source@, *range),
{
    match text_at(source, range) {
        Some(text) => text,
        None => String::new(),
    }
}

impl QueryMatchView {
    /// The first node captured under the name with this index.
    pub open spec fn capture(self, index: u32) -> Option<CapturedView> {
        first_capture(self.captures, index)
    }
}

/// The first of `captures` that has this index.
pub open spec fn first_capture(captures: Seq<CapturedView>, index: u32) -> Option<CapturedView>
    decreases captures.len(),
{
    if captures.len() == 0 {
        None
    } else if captures[0].index == index {
        Some(captures[0])
    } else {
        first_capture(captures.drop_first(), index)
    }
}

impl QueryMatch {
    /// The first node captured under the name with this index.
    pub fn capture(&self, index: u32) -> (found: Option<&Captured>)
        ensures
            match found {
                Some(c) => self@.capture(index) == Some(c@),
                None => self@.capture(index).is_none(),
            },
    {
        let mut i: usize = 0;
        assert(self@.captures.skip(0) == self@.captures);
        while i < self.captures.len()
            invariant
                i <= self.captures.len(),
                self@.capture(index) == first_capture(self@.captures.skip(i as int), index),
            decreases self.captures.len() - i,
        {
            if self.captures[i].index == index {
                return Some(&self.captures[i]);
            }
            assert(self@.captures.skip(i as int).drop_first() == self@.captures.skip(i + 1));
            i += 1;
        }
        None
    }
}

} // verus!
