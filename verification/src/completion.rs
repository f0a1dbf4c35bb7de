//! The members to offer after `->` on a variable.

use crate::db::{records_view, rows_like, ClassRecord, ClassRecordView, SymbolIndex};
use crate::location::Position;
use crate::resolver::{
    buffer_tables, index_current_buffer, may_be_tables, tables_view, text_of, Tables,
};
use crate::syntax::{
    found_view, is_ascii_source, matches_view, may_answer, opt_text, php_query_matches, run_query,
    text_or_empty, QueryError, QueryMatch, QueryMatchView,
};
use crate::text::append;
use crate::utils::{range_includes, PositionInRange};
use vstd::prelude::*;

verus! {

/// Captures, for a member access on a variable: the variable, and the whole
/// access. The second pattern is for an access that breaks off after the
/// arrow and so does not parse.
pub const COMPLETION_QUERY: &'static str =
    "(member_access_expression object: (variable_name (name) @variable_name)) @root (ERROR (variable_name (name) @variable_name) \"->\") @root";

/// Index of the capture `variable_name` in the completion query.
pub const ACCESS_VARIABLE: u32 = 0;

/// Index of the capture `root` in the completion query.
pub const ACCESS_ROOT: u32 = 1;

/// The class of the variable of a member access, the cursor anywhere on the
/// access, where the table knows the variable.
pub open spec fn receiver_of(
    source: Seq<u8>,
    position: Position,
    variables: Map<Seq<char>, Seq<char>>,
    found: QueryMatchView,
) -> Option<Seq<char>> {
    match (found.capture(ACCESS_VARIABLE), found.capture(ACCESS_ROOT)) {
        (Some(variable), Some(root)) => if range_includes(root.range, position)
            && variables.contains_key(text_of(source, variable)) {
            Some(variables[text_of(source, variable)])
        } else {
            None
        },
        _ => None,
    }
}

/// The class of the first member access at the cursor whose variable the
/// table knows.
pub open spec fn first_receiver(
    source: Seq<u8>,
    position: Position,
    variables: Map<Seq<char>, Seq<char>>,
    found: Seq<QueryMatchView>,
) -> Option<Seq<char>>
    decreases found.len(),
{
    if found.len() == 0 {
        None
    } else if receiver_of(source, position, variables, found[0]) is Some {
        receiver_of(source, position, variables, found[0])
    } else {
        first_receiver(source, position, variables, found.drop_first())
    }
}

/// The class whose members are asked for at the cursor, given the tables of
/// the buffer and the matches of the completion query.
pub fn find_receiver(
    source: &[u8],
    position: &Position,
    tables: &Tables,
    found: &Vec<QueryMatch>,
) -> (class: Option<String>)
    ensures
        opt_text(class) == first_receiver(
            source@,
            *position,
            tables.variables@,
            matches_view(found@),
        ),
{
    let ghost all = matches_view(found@);
    let mut i: usize = 0;
    assert(all.skip(0) == all);
    while i < found.len()
        invariant
            i <= found.len(),
            all == matches_view(found@),
            first_receiver(source@, *position, tables.variables@, all) == first_receiver(
                source@,
                *position,
                tables.variables@,
                all.skip(i as int),
            ),
        decreases found.len() - i,
    {
        proof {
            assert(all.skip(i as int).drop_first() == all.skip(i + 1));
            assert(all.skip(i as int)[0] == found@[i as int]@);
        }
        let here = &found[i];
        match (here.capture(ACCESS_VARIABLE), here.capture(ACCESS_ROOT)) {
            (Some(variable), Some(root)) => {
                if root.range.includes(position) {
                    let name = text_or_empty(source, &variable.range);
                    let class = tables.variables.get(name.as_str());
                    if class.is_some() {
                        return class;
                    }
                }
            },
            _ => {},
        }
        i += 1;
    }
    None
}

/// The class whose members are asked for at the cursor, given the tables of
/// the buffer and the answer to the completion query: what `first_receiver`
/// makes of them, where there are tables and an answer.
pub open spec fn receiver_from(
    source: Seq<u8>,
    position: Position,
    tables: Option<(Map<Seq<char>, Seq<char>>, Map<Seq<char>, Seq<char>>)>,
    found: Result<Seq<QueryMatchView>, QueryError>,
) -> Option<Seq<char>> {
    match (tables, found) {
        (Some(tables), Ok(found)) => first_receiver(source, position, tables.1, found),
        _ => None,
    }
}

/// The class whose members are asked for at the cursor in an ASCII buffer:
/// what `receiver_from` makes of `buffer_tables` and of the answer that
/// `php_query_matches` names.
pub open spec fn receiver_at(source: Seq<u8>, position: Position) -> Option<Seq<char>> {
    receiver_from(
        source,
        position,
        buffer_tables(source),
        php_query_matches(source, COMPLETION_QUERY@),
    )
}

/// Whether `class` can be the class whose members are asked for at the
/// cursor in a buffer: what `receiver_from` makes of tables that the buffer
/// can have and of an answer that the completion query can give on it.
pub open spec fn may_complete_on(
    source: Seq<u8>,
    position: Position,
    class: Option<Seq<char>>,
) -> bool {
    exists|
        tables: Option<(Map<Seq<char>, Seq<char>>, Map<Seq<char>, Seq<char>>)>,
        found: Result<Seq<QueryMatchView>, QueryError>,
    |
        #![trigger receiver_from(source, position, tables, found)]
        may_be_tables(source, tables) && may_answer(source, COMPLETION_QUERY@, found) && class
            == receiver_from(source, position, tables, found)
}

/// The class whose members are asked for at the cursor in a buffer. In an
/// ASCII buffer it is what `receiver_at` gives; in any buffer it is what
/// `receiver_from` makes of what the queries answered.
pub fn completion_receiver(buffer: &[u8], position: &Position) -> (class: Option<String>)
    ensures
        may_complete_on(buffer@, *position, opt_text(class)),
        is_ascii_source(buffer@) ==> opt_text(class) == receiver_at(buffer@, *position),
{
    let tables = index_current_buffer(buffer);
    let ghost tables_found = tables_view(tables);
    let tables = match tables {
        Some(tables) => tables,
        None => {
            assert(receiver_from(
                buffer@,
                *position,
                tables_found,
                php_query_matches(buffer@, COMPLETION_QUERY@),
            ) is None);
            return None;
        },
    };
    let found = run_query(buffer, COMPLETION_QUERY);
    let ghost answer = found_view(found);
    let found = match found {
        Ok(found) => found,
        Err(_) => {
            assert(receiver_from(buffer@, *position, tables_found, answer) is None);
            return None;
        },
    };
    let class = find_receiver(buffer, position, &tables, &found);
    assert(opt_text(class) == receiver_from(buffer@, *position, tables_found, answer));
    class
}

/// The pattern that the members of a class are looked up by.
pub open spec fn member_pattern(class: Seq<char>) -> Seq<char> {
    class + "::%"@
}

/// The pattern that the members of a class are looked up by.
pub fn completion_pattern(class: &str) -> (pattern: String)
    ensures
        pattern@ == member_pattern(class@),
{
    append(class, "::%")
}

/// One member that is offered.
#[derive(Debug)]
pub struct CompletionEntry {
    /// The member's own name.
    pub label: String,
    /// Name, parameters and return type, where the record has both.
    pub detail: Option<String>,
    pub documentation: String,
    /// What is put into the buffer: the name and a pair of brackets.
    pub insert_text: String,
}

/// A member that is offered, its texts as sequences of characters.
pub struct CompletionEntryView {
    pub label: Seq<char>,
    pub detail: Option<Seq<char>>,
    pub documentation: Seq<char>,
    pub insert_text: Seq<char>,
}

impl View for CompletionEntry {
    type V = CompletionEntryView;

    open spec fn view(&self) -> CompletionEntryView {
        CompletionEntryView {
            label: self.label@,
            detail: opt_text(self.detail),
            documentation: self.documentation@,
            insert_text: self.insert_text@,
        }
    }
}

/// The views of a list of entries.
pub open spec fn entries_view(entries: Seq<CompletionEntry>) -> Seq<CompletionEntryView> {
    Seq::new(entries.len(), |i: int| entries[i]@)
}

/// The name of a member: its qualified name without the class and the two
/// colons before it; empty where the qualified name is no longer than those.
pub open spec fn label_of(class: Seq<char>, fqn: Seq<char>) -> Seq<char> {
    if class.len() + 2 <= fqn.len() {
        fqn.skip(class.len() as int + 2)
    } else {
        Seq::empty()
    }
}

/// Name, parameters and return type of a member, where its record has both.
pub open spec fn detail_of(label: Seq<char>, record: ClassRecordView) -> Option<Seq<char>> {
    match (record.parameters, record.return_type) {
        (Some(parameters), Some(return_type)) => Some(label + parameters + ": "@ + return_type),
        _ => None,
    }
}

/// The entry for a member of a class.
pub open spec fn entry_of(class: Seq<char>, record: ClassRecordView) -> CompletionEntryView {
    CompletionEntryView {
        label: label_of(class, record.fqn),
        detail: detail_of(label_of(class, record.fqn), record),
        documentation: record.description,
        insert_text: label_of(class, record.fqn) + "()"@,
    }
}

/// The entries for the members of a class, one for each record.
pub open spec fn entries_of(class: Seq<char>, rows: Seq<ClassRecordView>) -> Seq<
    CompletionEntryView,
> {
    Seq::new(rows.len(), |i: int| entry_of(class, rows[i]))
}

/// The entry for a member of a class.
pub fn completion_item(class: &str, record: &ClassRecord) -> (entry: CompletionEntry)
    ensures
        entry@ == entry_of(class@, record@),
{
    let skip = class.unicode_len();
    let n = record.fqn.as_str().unicode_len();
    let label = if skip <= n && n - skip >= 2 {
        assert(record.fqn@.subrange(skip + 2, n as int) == record.fqn@.skip(skip + 2));
        String::from_str(record.fqn.as_str().substring_char(skip + 2, n))
    } else {
        String::new()
    };
    let detail = match (&record.parameters, &record.return_type) {
        (Some(parameters), Some(return_type)) => {
            let mut text = label.clone();
            text.append(parameters.as_str());
            text.append(": ");
            text.append(return_type.as_str());
            Some(text)
        },
        _ => None,
    };
    let insert_text = append(label.as_str(), "()");
    CompletionEntry { label, detail, documentation: record.description.clone(), insert_text }
}

/// The entries for the members of a class, one for each record.
pub fn completion_items(class: &str, records: &Vec<ClassRecord>) -> (entries: Vec<CompletionEntry>)
    ensures
        entries_view(entries@) == entries_of(class@, records_view(records@)),
{
    let mut entries: Vec<CompletionEntry> = Vec::new();
    let mut i: usize = 0;
    while i < records.len()
        invariant
            i <= records.len(),
            entries.len() == i,
            forall|k: int| 0 <= k < i ==> entries[k]@ == entry_of(class@, records[k]@),
        decreases records.len() - i,
    {
        entries.push(completion_item(class, &records[i]));
        i += 1;
    }
    assert(entries_view(entries@) =~= entries_of(class@, records_view(records@)));
    entries
}

/// The members offered for a class, given the rows of the index: one for
/// each row whose name matches the pattern of the class; none without a
/// class.
pub open spec fn completions_of(class: Option<Seq<char>>, rows: Seq<ClassRecordView>) -> Seq<
    CompletionEntryView,
> {
    match class {
        Some(c) => entries_of(c, rows_like(rows, member_pattern(c))),
        None => Seq::empty(),
    }
}

/// The members to offer at the cursor in a buffer: those of the class
/// whose members are asked for. In an ASCII buffer that class is what
/// `receiver_at` gives; in any buffer it is one that can be asked for there.
pub fn get_completions(index: &SymbolIndex, buffer: &[u8], position: &Position) -> (entries: Vec<
    CompletionEntry,
>)
    ensures
        exists|class: Option<Seq<char>>|
            #![trigger may_complete_on(buffer@, *position, class)]
            may_complete_on(buffer@, *position, class) && entries_view(entries@)
                == completions_of(class, index@),
        is_ascii_source(buffer@) ==> entries_view(entries@) == completions_of(
            receiver_at(buffer@, *position),
            index@,
        ),
{
    let class = completion_receiver(buffer, position);
    let ghost asked = opt_text(class);
    let entries = match class {
        Some(class) => {
            let pattern = completion_pattern(class.as_str());
            let records = index.find_by_fqn_like(pattern.as_str());
            completion_items(class.as_str(), &records)
        },
        None => {
            let entries: Vec<CompletionEntry> = Vec::new();
            assert(entries_view(entries@) =~= Seq::<CompletionEntryView>::empty());
            entries
        },
    };
    assert(entries_view(entries@) == completions_of(asked, index@));
    entries
}

} // verus!
