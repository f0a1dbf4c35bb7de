//! What to show for the symbol under the cursor.

use crate::db::{first_row, rows_named, ClassRecord, ClassRecordView, SymbolIndex};
use crate::indexer::class_declaration::method_fqn;
use crate::location::Position;
use crate::resolver::{
    buffer_tables, index_current_buffer, may_be_tables, member, tables_view, text_of, Tables,
};
use crate::syntax::{
    found_view, is_ascii_source, matches_view, may_answer, opt_text, php_query_matches, run_query,
    text_or_empty, QueryError, QueryMatch, QueryMatchView,
};
use crate::tables::lookup;
use crate::text::chars_of;
use crate::utils::{range_includes, PositionInRange};
use vstd::prelude::*;

verus! {

/// Captures, for a method called on a variable: the variable, the method's
/// name, and the whole call.
pub const HOVER_CALL_QUERY: &'static str =
    "(member_call_expression object: (variable_name (name) @variable_name) name: (name) @method_name) @root";

/// Captures the class of a new object.
pub const HOVER_CLASS_QUERY: &'static str = "(object_creation_expression (name) @class_name)";

/// Index of the capture `variable_name` in the call query.
pub const CALL_VARIABLE: u32 = 0;

/// Index of the capture `method_name` in the call query.
pub const CALL_METHOD: u32 = 1;

/// Index of the capture `root` in the call query.
pub const CALL_ROOT: u32 = 2;

/// Index of the capture `class_name` in the class query.
pub const CREATED_CLASS: u32 = 0;

/// What a hover is about.
#[derive(Debug)]
pub enum HoverTarget {
    /// A method, by its qualified name and its own name.
    Method { fqn: String, method: String },
    /// A class, by its qualified name.
    Class { fqn: String },
}

/// What a hover is about, its names as sequences of characters.
pub enum HoverTargetView {
    Method { fqn: Seq<char>, method: Seq<char> },
    Class { fqn: Seq<char> },
}

impl View for HoverTarget {
    type V = HoverTargetView;

    open spec fn view(&self) -> HoverTargetView {
        match self {
            HoverTarget::Method { fqn, method } => HoverTargetView::Method {
                fqn: fqn@,
                method: method@,
            },
            HoverTarget::Class { fqn } => HoverTargetView::Class { fqn: fqn@ },
        }
    }
}

/// The view of a target, if there is one.
pub open spec fn opt_target(target: Option<HoverTarget>) -> Option<HoverTargetView> {
    match target {
        Some(t) => Some(t@),
        None => None,
    }
}

/// What is shown on a hover: a signature in a language, and a description.
#[derive(Debug)]
pub struct HoverText {
    pub language: String,
    pub signature: String,
    pub description: String,
}

/// What is shown on a hover, its texts as sequences of characters.
pub struct HoverTextView {
    pub language: Seq<char>,
    pub signature: Seq<char>,
    pub description: Seq<char>,
}

impl View for HoverText {
    type V = HoverTextView;

    open spec fn view(&self) -> HoverTextView {
        HoverTextView {
            language: self.language@,
            signature: self.signature@,
            description: self.description@,
        }
    }
}

/// The view of a hover, if there is one.
pub open spec fn opt_hover(hover: Option<HoverText>) -> Option<HoverTextView> {
    match hover {
        Some(h) => Some(h@),
        None => None,
    }
}

/// The method that a call on a variable is about, the cursor anywhere on
/// the call, where the table knows the variable.
pub open spec fn call_target(
    source: Seq<u8>,
    position: Position,
    variables: Map<Seq<char>, Seq<char>>,
    found: QueryMatchView,
) -> Option<HoverTargetView> {
    match (found.capture(CALL_VARIABLE), found.capture(CALL_METHOD), found.capture(CALL_ROOT)) {
        (Some(variable), Some(method), Some(root)) => if range_includes(root.range, position)
            && variables.contains_key(text_of(source, variable)) {
            Some(
                HoverTargetView::Method {
                    fqn: method_fqn(variables[text_of(source, variable)], text_of(source, method)),
                    method: text_of(source, method),
                },
            )
        } else {
            None
        },
        _ => None,
    }
}

/// The first call that is about a method at the cursor.
pub open spec fn first_call_target(
    source: Seq<u8>,
    position: Position,
    variables: Map<Seq<char>, Seq<char>>,
    found: Seq<QueryMatchView>,
) -> Option<HoverTargetView>
    decreases found.len(),
{
    if found.len() == 0 {
        None
    } else if call_target(source, position, variables, found[0]) is Some {
        call_target(source, position, variables, found[0])
    } else {
        first_call_target(source, position, variables, found.drop_first())
    }
}

/// The class that the first new object with the cursor on its class name is
/// about, where the alias table knows that name.
pub open spec fn first_class_target(
    source: Seq<u8>,
    position: Position,
    aliases: Map<Seq<char>, Seq<char>>,
    found: Seq<QueryMatchView>,
) -> Option<HoverTargetView>
    decreases found.len(),
{
    if found.len() == 0 {
        None
    } else {
        match found[0].capture(CREATED_CLASS) {
            Some(class) => if range_includes(class.range, position) {
                match lookup(aliases, text_of(source, class)) {
                    Some(fqn) => Some(HoverTargetView::Class { fqn }),
                    None => None,
                }
            } else {
                first_class_target(source, position, aliases, found.drop_first())
            },
            None => first_class_target(source, position, aliases, found.drop_first()),
        }
    }
}

/// What a hover at the cursor is about: a method called on a variable, else
/// the class of a new object.
pub open spec fn target_of(
    source: Seq<u8>,
    position: Position,
    aliases: Map<Seq<char>, Seq<char>>,
    variables: Map<Seq<char>, Seq<char>>,
    calls: Seq<QueryMatchView>,
    creations: Seq<QueryMatchView>,
) -> Option<HoverTargetView> {
    match first_call_target(source, position, variables, calls) {
        Some(target) => Some(target),
        None => first_class_target(source, position, aliases, creations),
    }
}

/// What a hover at the cursor is about, given the tables of the buffer and
/// the matches of the two hover queries.
pub fn find_target(
    source: &[u8],
    position: &Position,
    tables: &Tables,
    calls: &Vec<QueryMatch>,
    creations: &Vec<QueryMatch>,
) -> (target: Option<HoverTarget>)
    ensures
        opt_target(target) == target_of(
            source@,
            *position,
            tables.namespaces@,
            tables.variables@,
            matches_view(calls@),
            matches_view(creations@),
        ),
{
    let ghost all_calls = matches_view(calls@);
    let mut i: usize = 0;
    assert(all_calls.skip(0) == all_calls);
    while i < calls.len()
        invariant
            i <= calls.len(),
            all_calls == matches_view(calls@),
            first_call_target(source@, *position, tables.variables@, all_calls)
                == first_call_target(
                source@,
                *position,
                tables.variables@,
                all_calls.skip(i as int),
            ),
        decreases calls.len() - i,
    {
        proof {
            assert(all_calls.skip(i as int).drop_first() == all_calls.skip(i + 1));
            assert(all_calls.skip(i as int)[0] == calls@[i as int]@);
        }
        let here = &calls[i];
        match (here.capture(CALL_VARIABLE), here.capture(CALL_METHOD), here.capture(CALL_ROOT)) {
            (Some(variable), Some(method), Some(root)) => {
                if root.range.includes(position) {
                    let name = text_or_empty(source, &variable.range);
                    match tables.variables.get(name.as_str()) {
                        Some(class) => {
                            let method = text_or_empty(source, &method.range);
                            return Some(
                                HoverTarget::Method { fqn: member(class, method.clone()), method },
                            );
                        },
                        None => {},
                    }
                }
            },
            _ => {},
        }
        i += 1;
    }
    let ghost all = matches_view(creations@);
    let mut j: usize = 0;
    assert(all.skip(0) == all);
    while j < creations.len()
        invariant
            j <= creations.len(),
            all == matches_view(creations@),
            first_call_target(
                source@,
                *position,
                tables.variables@,
                matches_view(calls@),
            ) is None,
            first_class_target(source@, *position, tables.namespaces@, all) == first_class_target(
                source@,
                *position,
                tables.namespaces@,
                all.skip(j as int),
            ),
        decreases creations.len() - j,
    {
        proof {
            assert(all.skip(j as int).drop_first() == all.skip(j + 1));
            assert(all.skip(j as int)[0] == creations@[j as int]@);
        }
        match creations[j].capture(CREATED_CLASS) {
            Some(class) => {
                if class.range.includes(position) {
                    let name = text_or_empty(source, &class.range);
                    return match tables.namespaces.get(name.as_str()) {
                        Some(fqn) => Some(HoverTarget::Class { fqn }),
                        None => None,
                    };
                }
            },
            None => {},
        }
        j += 1;
    }
    None
}

/// What a hover at the cursor is about, given the tables of the buffer and
/// the answers to the two hover queries: what `target_of` makes of them,
/// where there are tables and both answers.
pub open spec fn target_from(
    source: Seq<u8>,
    position: Position,
    tables: Option<(Map<Seq<char>, Seq<char>>, Map<Seq<char>, Seq<char>>)>,
    calls: Result<Seq<QueryMatchView>, QueryError>,
    creations: Result<Seq<QueryMatchView>, QueryError>,
) -> Option<HoverTargetView> {
    match (tables, calls, creations) {
        (Some(tables), Ok(calls), Ok(creations)) => target_of(
            source,
            position,
            tables.0,
            tables.1,
            calls,
            creations,
        ),
        _ => None,
    }
}

/// What a hover at the cursor is about in an ASCII buffer: what
/// `target_from` makes of `buffer_tables` and of the answers that
/// `php_query_matches` names.
pub open spec fn hover_target_at(source: Seq<u8>, position: Position) -> Option<HoverTargetView> {
    target_from(
        source,
        position,
        buffer_tables(source),
        php_query_matches(source, HOVER_CALL_QUERY@),
        php_query_matches(source, HOVER_CLASS_QUERY@),
    )
}

/// Whether `target` can be what a hover at the cursor is about in a buffer:
/// what `target_from` makes of tables that the buffer can have and of
/// answers that the two hover queries can give on it.
pub open spec fn may_hover_on(
    source: Seq<u8>,
    position: Position,
    target: Option<HoverTargetView>,
) -> bool {
    exists|
        tables: Option<(Map<Seq<char>, Seq<char>>, Map<Seq<char>, Seq<char>>)>,
        calls: Result<Seq<QueryMatchView>, QueryError>,
        creations: Result<Seq<QueryMatchView>, QueryError>,
    |
        #![trigger target_from(source, position, tables, calls, creations)]
        may_be_tables(source, tables) && may_answer(source, HOVER_CALL_QUERY@, calls)
            && may_answer(source, HOVER_CLASS_QUERY@, creations) && target == target_from(
            source,
            position,
            tables,
            calls,
            creations,
        )
}

/// What a hover at the cursor is about in a buffer. In an ASCII buffer it
/// is what `hover_target_at` gives; in any buffer it is what `target_from`
/// makes of what the queries answered.
pub fn hover_target(buffer: &[u8], position: &Position) -> (target: Option<HoverTarget>)
    ensures
        may_hover_on(buffer@, *position, opt_target(target)),
        is_ascii_source(buffer@) ==> opt_target(target) == hover_target_at(buffer@, *position),
{
    let ghost named_calls = php_query_matches(buffer@, HOVER_CALL_QUERY@);
    let ghost named_creations = php_query_matches(buffer@, HOVER_CLASS_QUERY@);
    let tables = index_current_buffer(buffer);
    let ghost tables_found = tables_view(tables);
    let tables = match tables {
        Some(tables) => tables,
        None => {
            assert(target_from(buffer@, *position, tables_found, named_calls, named_creations)
                is None);
            return None;
        },
    };
    let found = run_query(buffer, HOVER_CALL_QUERY);
    let ghost calls_found = found_view(found);
    let calls = match found {
        Ok(found) => found,
        Err(_) => {
            assert(target_from(buffer@, *position, tables_found, calls_found, named_creations)
                is None);
            return None;
        },
    };
    let found = run_query(buffer, HOVER_CLASS_QUERY);
    let ghost creations_found = found_view(found);
    let creations = match found {
        Ok(found) => found,
        Err(_) => {
            assert(target_from(buffer@, *position, tables_found, calls_found, creations_found)
                is None);
            return None;
        },
    };
    let target = find_target(buffer, position, &tables, &calls, &creations);
    assert(opt_target(target) == target_from(
        buffer@,
        *position,
        tables_found,
        calls_found,
        creations_found,
    ));
    target
}

/// Index of the last backslash of a name, -1 where it has none.
pub open spec fn last_backslash(name: Seq<char>) -> int
    decreases name.len(),
{
    if name.len() == 0 {
        -1
    } else if name.last() == '\\' {
        name.len() - 1
    } else {
        last_backslash(name.drop_last())
    }
}

/// What stands before the last backslash of a name; empty where it has none.
pub open spec fn namespace_part(name: Seq<char>) -> Seq<char> {
    if last_backslash(name) >= 0 {
        name.take(last_backslash(name))
    } else {
        Seq::empty()
    }
}

/// What stands after the last backslash of a name; empty where it has none.
pub open spec fn class_part(name: Seq<char>) -> Seq<char> {
    if last_backslash(name) >= 0 {
        name.skip(last_backslash(name) + 1)
    } else {
        Seq::empty()
    }
}

/// A text, or another in its place where there is none.
pub open spec fn text_or(text: Option<Seq<char>>, other: Seq<char>) -> Seq<char> {
    match text {
        Some(t) => t,
        None => other,
    }
}

/// The return type as a signature ends with it.
pub open spec fn return_suffix(return_type: Option<Seq<char>>) -> Seq<char> {
    match return_type {
        Some(t) => ": "@ + t,
        None => Seq::empty(),
    }
}

/// The signature line of a method.
pub open spec fn method_signature(method: Seq<char>, record: ClassRecordView) -> Seq<char> {
    "<?php function "@ + method + text_or(record.parameters, "()"@) + return_suffix(
        record.return_type,
    ) + " ?>\n\n---"@
}

/// The signature lines of a class.
pub open spec fn class_signature(fqn: Seq<char>) -> Seq<char> {
    "<?php\nnamespace "@ + namespace_part(fqn) + "\nclass "@ + class_part(fqn) + "\n---"@
}

/// What is shown for a target whose record is `record`.
pub open spec fn hover_text_of(target: HoverTargetView, record: ClassRecordView) -> HoverTextView {
    HoverTextView {
        language: "php"@,
        signature: match target {
            HoverTargetView::Method { fqn, method } => method_signature(method, record),
            HoverTargetView::Class { fqn } => class_signature(fqn),
        },
        description: record.description,
    }
}

/// The qualified name that a target is looked up by.
pub open spec fn target_fqn(target: HoverTargetView) -> Seq<char> {
    match target {
        HoverTargetView::Method { fqn, method } => fqn,
        HoverTargetView::Class { fqn } => fqn,
    }
}

/// A name split at its last backslash; two empty strings where it has none.
pub fn split_class(fqn: &str) -> (parts: (String, String))
    ensures
        parts.0@ == namespace_part(fqn@),
        parts.1@ == class_part(fqn@),
{
    let chars = chars_of(fqn);
    let n = chars.len();
    let mut i: usize = n;
    assert(fqn@.take(n as int) == fqn@);
    while i > 0
        invariant
            i <= n,
            n == chars.len(),
            chars@ == fqn@,
            last_backslash(fqn@) == last_backslash(fqn@.take(i as int)),
        decreases i,
    {
        i -= 1;
        assert(fqn@.take(i + 1).drop_last() == fqn@.take(i as int));
        if chars[i] == '\\' {
            assert(fqn@.subrange(0, i as int) == fqn@.take(i as int));
            assert(fqn@.subrange(i + 1, n as int) == fqn@.skip(i + 1));
            return (
                String::from_str(fqn.substring_char(0, i)),
                String::from_str(fqn.substring_char(i + 1, n)),
            );
        }
    }
    (String::new(), String::new())
}

/// What is shown for a target whose record is `record`: for a method a line
/// with its name, its parameters and its return type; for a class its
/// namespace and its name; and the record's description.
pub fn hover_text(target: &HoverTarget, record: &ClassRecord) -> (hover: HoverText)
    ensures
        hover@ == hover_text_of(target@, record@),
{
    let signature = match target {
        HoverTarget::Method { fqn, method } => {
            let mut line = String::from_str("<?php function ");
            line.append(method.as_str());
            match &record.parameters {
                Some(parameters) => line.append(parameters.as_str()),
                None => line.append("()"),
            }
            match &record.return_type {
                Some(return_type) => {
                    line.append(": ");
                    line.append(return_type.as_str());
                },
                None => {},
            }
            line.append(" ?>\n\n---");
            assert(line@ =~= method_signature(method@, record@));
            line
        },
        HoverTarget::Class { fqn } => {
            let parts = split_class(fqn.as_str());
            let mut lines = String::from_str("<?php\nnamespace ");
            lines.append(parts.0.as_str());
            lines.append("\nclass ");
            lines.append(parts.1.as_str());
            lines.append("\n---");
            lines
        },
    };
    HoverText {
        language: String::from_str("php"),
        signature,
        description: record.description.clone(),
    }
}

/// The qualified name that a target is looked up by.
pub fn target_name(target: &HoverTarget) -> (fqn: &String)
    ensures
        fqn@ == target_fqn(target@),
{
    match target {
        HoverTarget::Method { fqn, method } => fqn,
        HoverTarget::Class { fqn } => fqn,
    }
}

/// What is shown for a target, given the records that the index has under
/// its name: the first of them decides, and without one nothing is shown.
pub open spec fn hover_of(target: Option<HoverTargetView>, rows: Seq<ClassRecordView>) -> Option<
    HoverTextView,
> {
    match target {
        Some(t) => if rows_named(rows, target_fqn(t)).len() > 0 {
            Some(hover_text_of(t, rows_named(rows, target_fqn(t))[0]))
        } else {
            None
        },
        None => None,
    }
}

/// What is shown at the cursor in a buffer: the signature and description
/// of the first record that the index has for what the cursor is on. In an
/// ASCII buffer that is what `hover_target_at` gives; in any buffer it is
/// something that the cursor can be on there.
pub fn get_hover(index: &SymbolIndex, buffer: &[u8], position: &Position) -> (hover: Option<
    HoverText,
>)
    ensures
        exists|target: Option<HoverTargetView>|
            #![trigger may_hover_on(buffer@, *position, target)]
            may_hover_on(buffer@, *position, target) && opt_hover(hover) == hover_of(
                target,
                index@,
            ),
        is_ascii_source(buffer@) ==> opt_hover(hover) == hover_of(
            hover_target_at(buffer@, *position),
            index@,
        ),
{
    let target = hover_target(buffer, position);
    let ghost on = opt_target(target);
    let hover = match target {
        Some(target) => match index.find_one_by_fqn(target_name(&target).as_str()) {
            Ok(record) => Some(hover_text(&target, &record)),
            Err(_) => None,
        },
        None => None,
    };
    assert(opt_hover(hover) == hover_of(on, index@));
    hover
}

} // verus!
