//! From a buffer and a cursor to the qualified name under the cursor.

use crate::indexer::class_declaration::method_fqn;
use crate::location::Position;
use crate::syntax::{
    found_view, is_ascii_source, matches_view, may_answer, opt_text, php_query_matches,
    range_text_or_empty, run_query, text_or_empty, CapturedView, QueryError, QueryMatch,
    QueryMatchView,
};
use crate::tables::{lookup, resolved, NameTable};
use crate::text::append;
use crate::utils::{range_includes, PositionInRange};
use vstd::prelude::*;

verus! {

/// Captures, for a `use` clause: the namespace, the class, and the alias
/// where it has one.
pub const USE_QUERY: &'static str =
    "(namespace_use_declaration (namespace_use_clause (qualified_name (namespace_name_as_prefix (namespace_name) @ns_name) (name) @class_name) (namespace_aliasing_clause (name) @alias)?))";

/// Captures, for an assignment of a new object to a variable: the variable,
/// the class, and the namespace where the class is written with one.
pub const ASSIGNMENT_QUERY: &'static str =
    "(assignment_expression left: (variable_name (name) @var_name) right: (object_creation_expression (name) @object_name)) (assignment_expression left: (variable_name (name) @var_name) right: (object_creation_expression (qualified_name (namespace_name_as_prefix (namespace_name) @ns_name) (name) @object_name)))";

/// Six patterns, in the order in which a reference is looked for: a method
/// called on a variable; on a new object; on a new object whose class is
/// written with a namespace; a method called on a class; a new object; a new
/// object whose class is written with a namespace.
pub const REFERENCE_QUERY: &'static str =
    "(member_call_expression object: (variable_name (name) @varname) name: (name) @method_name) (member_call_expression object: (parenthesized_expression (object_creation_expression (name) @class_name)) name: (name) @method_name) (member_call_expression object: (parenthesized_expression (object_creation_expression (qualified_name (namespace_name_as_prefix (namespace_name) @ns_name) (name) @class_name))) name: (name) @method_name) (scoped_call_expression scope: (name) @class_name name: (name) @method_name) (object_creation_expression (name) @class_name) (object_creation_expression (qualified_name (namespace_name_as_prefix (namespace_name) @ns_name) (name) @class_name))";

/// Index of the capture `ns_name` in the `use` query.
pub const USE_PREFIX: u32 = 0;

/// Index of the capture `class_name` in the `use` query.
pub const USE_CLASS: u32 = 1;

/// Index of the capture `alias` in the `use` query.
pub const USE_ALIAS: u32 = 2;

/// Index of the capture `var_name` in the assignment query.
pub const ASSIGNED_VARIABLE: u32 = 0;

/// Index of the capture `object_name` in the assignment query.
pub const ASSIGNED_CLASS: u32 = 1;

/// Index of the capture `ns_name` in the assignment query.
pub const ASSIGNED_PREFIX: u32 = 2;

/// Index of the capture `varname` in the reference query.
pub const REF_VARIABLE: u32 = 0;

/// Index of the capture `method_name` in the reference query.
pub const REF_METHOD: u32 = 1;

/// Index of the capture `class_name` in the reference query.
pub const REF_CLASS: u32 = 2;

/// Index of the capture `ns_name` in the reference query.
pub const REF_PREFIX: u32 = 3;

/// Number of patterns in the reference query.
pub const SHAPES: usize = 6;

/// The name of a class under a namespace prefix.
pub open spec fn qualified(prefix: Seq<char>, class: Seq<char>) -> Seq<char> {
    prefix + "\\"@ + class
}

/// The text of a captured node, empty where it has none.
pub open spec fn text_of(source: Seq<u8>, node: CapturedView) -> Seq<char> {
    range_text_or_empty(source, node.range)
}

/// The entry that a `use` clause gives: under the alias, or under the class
/// name where there is no alias, the class under its namespace.
pub open spec fn use_entry(source: Seq<u8>, found: QueryMatchView) -> Option<
    (Seq<char>, Seq<char>),
> {
    match (found.capture(USE_PREFIX), found.capture(USE_CLASS)) {
        (Some(prefix), Some(class)) => {
            let name = text_of(source, class);
            let key = match found.capture(USE_ALIAS) {
                Some(alias) => text_of(source, alias),
                None => name,
            };
            Some((key, qualified(text_of(source, prefix), name)))
        },
        _ => None,
    }
}

/// The alias table of a buffer: the entries of its `use` clauses, a later
/// one taking the place of an earlier one for the same name.
pub open spec fn alias_table(source: Seq<u8>, found: Seq<QueryMatchView>) -> Map<
    Seq<char>,
    Seq<char>,
>
    decreases found.len(),
{
    if found.len() == 0 {
        Map::empty()
    } else {
        let before = alias_table(source, found.drop_last());
        match use_entry(source, found.last()) {
            Some(entry) => before.insert(entry.0, entry.1),
            None => before,
        }
    }
}

/// The variable and its class that an assignment of a new object gives. A
/// class name is looked up in the alias table and stands for itself where
/// it is not there; so is a namespace before a class name.
pub open spec fn assigned_type(
    source: Seq<u8>,
    aliases: Map<Seq<char>, Seq<char>>,
    found: QueryMatchView,
) -> Option<(Seq<char>, Seq<char>)> {
    match (found.capture(ASSIGNED_VARIABLE), found.capture(ASSIGNED_CLASS)) {
        (Some(variable), Some(class)) => {
            let name = text_of(source, class);
            let fqn = match found.capture(ASSIGNED_PREFIX) {
                Some(prefix) => qualified(resolved(aliases, text_of(source, prefix)), name),
                None => resolved(aliases, name),
            };
            Some((text_of(source, variable), fqn))
        },
        _ => None,
    }
}

/// The variable-type table of a buffer: for each variable the class of the
/// first new object assigned to it.
pub open spec fn variable_table(
    source: Seq<u8>,
    aliases: Map<Seq<char>, Seq<char>>,
    found: Seq<QueryMatchView>,
) -> Map<Seq<char>, Seq<char>>
    decreases found.len(),
{
    if found.len() == 0 {
        Map::empty()
    } else {
        let before = variable_table(source, aliases, found.drop_last());
        match assigned_type(source, aliases, found.last()) {
            Some(entry) => if before.contains_key(entry.0) {
                before
            } else {
                before.insert(entry.0, entry.1)
            },
            None => before,
        }
    }
}

/// The alias table of a buffer, from the matches of the `use` query.
pub fn build_aliases(source: &[u8], found: &Vec<QueryMatch>) -> (aliases: NameTable)
    ensures
        aliases@ == alias_table(source@, matches_view(found@)),
{
    let ghost all = matches_view(found@);
    let mut aliases = NameTable::new();
    let mut i: usize = 0;
    while i < found.len()
        invariant
            i <= found.len(),
            all == matches_view(found@),
            aliases@ == alias_table(source@, all.take(i as int)),
        decreases found.len() - i,
    {
        proof {
            assert(all.take(i + 1).drop_last() == all.take(i as int));
            assert(all.take(i + 1).last() == found@[i as int]@);
        }
        let here = &found[i];
        match (here.capture(USE_PREFIX), here.capture(USE_CLASS)) {
            (Some(prefix), Some(class)) => {
                let name = text_or_empty(source, &class.range);
                let key = match here.capture(USE_ALIAS) {
                    Some(alias) => text_or_empty(source, &alias.range),
                    None => name.clone(),
                };
                let prefix = text_or_empty(source, &prefix.range);
                let fqn = append(append(prefix.as_str(), "\\").as_str(), name.as_str());
                aliases.insert(key, fqn);
            },
            _ => {},
        }
        i += 1;
    }
    assert(all.take(found.len() as int) == all);
    aliases
}

/// The variable-type table of a buffer, from its alias table and the
/// matches of the assignment query.
pub fn build_variables(source: &[u8], aliases: &NameTable, found: &Vec<QueryMatch>) -> (variables:
    NameTable)
    ensures
        variables@ == variable_table(source@, aliases@, matches_view(found@)),
{
    let ghost all = matches_view(found@);
    let mut variables = NameTable::new();
    let mut i: usize = 0;
    while i < found.len()
        invariant
            i <= found.len(),
            all == matches_view(found@),
            variables@ == variable_table(source@, aliases@, all.take(i as int)),
        decreases found.len() - i,
    {
        proof {
            assert(all.take(i + 1).drop_last() == all.take(i as int));
            assert(all.take(i + 1).last() == found@[i as int]@);
        }
        let here = &found[i];
        match (here.capture(ASSIGNED_VARIABLE), here.capture(ASSIGNED_CLASS)) {
            (Some(variable), Some(class)) => {
                let name = text_or_empty(source, &class.range);
                let fqn = match here.capture(ASSIGNED_PREFIX) {
                    Some(prefix) => {
                        let prefix = text_or_empty(source, &prefix.range);
                        let root = aliases.resolve(prefix.as_str());
                        append(append(root.as_str(), "\\").as_str(), name.as_str())
                    },
                    None => aliases.resolve(name.as_str()),
                };
                variables.insert_if_absent(text_or_empty(source, &variable.range), fqn);
            },
            _ => {},
        }
        i += 1;
    }
    assert(all.take(found.len() as int) == all);
    variables
}

/// The two tables of a buffer.
pub struct Tables {
    /// From an alias or a class name to the class under its namespace.
    pub namespaces: NameTable,
    /// From a variable to the class of the object first assigned to it.
    pub variables: NameTable,
}

/// The tables of a buffer, given the answers to the two queries: what
/// `alias_table` and `variable_table` make of them, where both are answered.
pub open spec fn tables_from(
    source: Seq<u8>,
    uses: Result<Seq<QueryMatchView>, QueryError>,
    assignments: Result<Seq<QueryMatchView>, QueryError>,
) -> Option<(Map<Seq<char>, Seq<char>>, Map<Seq<char>, Seq<char>>)> {
    match (uses, assignments) {
        (Ok(uses), Ok(assignments)) => {
            let aliases = alias_table(source, uses);
            Some((aliases, variable_table(source, aliases, assignments)))
        },
        _ => None,
    }
}

/// The tables of an ASCII buffer: what `tables_from` makes of the answers
/// that `php_query_matches` names.
pub open spec fn buffer_tables(source: Seq<u8>) -> Option<
    (Map<Seq<char>, Seq<char>>, Map<Seq<char>, Seq<char>>),
> {
    tables_from(
        source,
        php_query_matches(source, USE_QUERY@),
        php_query_matches(source, ASSIGNMENT_QUERY@),
    )
}

/// Whether `tables` can be the tables of a buffer: what `tables_from` makes
/// of answers that the two queries can give on it.
pub open spec fn may_be_tables(
    source: Seq<u8>,
    tables: Option<(Map<Seq<char>, Seq<char>>, Map<Seq<char>, Seq<char>>)>,
) -> bool {
    exists|
        uses: Result<Seq<QueryMatchView>, QueryError>,
        assignments: Result<Seq<QueryMatchView>, QueryError>,
    |
        #![trigger tables_from(source, uses, assignments)]
        may_answer(source, USE_QUERY@, uses) && may_answer(source, ASSIGNMENT_QUERY@, assignments)
            && tables == tables_from(source, uses, assignments)
}

/// The views of the two tables, if there are any.
pub open spec fn tables_view(tables: Option<Tables>) -> Option<
    (Map<Seq<char>, Seq<char>>, Map<Seq<char>, Seq<char>>),
> {
    match tables {
        Some(t) => Some((t.namespaces@, t.variables@)),
        None => None,
    }
}

/// Builds the two tables of a buffer. Of an ASCII buffer they are what
/// `buffer_tables` gives; of any buffer they are what `tables_from` makes of
/// what the two queries answered.
pub fn index_current_buffer(buffer: &[u8]) -> (tables: Option<Tables>)
    ensures
        may_be_tables(buffer@, tables_view(tables)),
        is_ascii_source(buffer@) ==> tables_view(tables) == buffer_tables(buffer@),
{
    let found = run_query(buffer, USE_QUERY);
    let ghost uses_found = found_view(found);
    let uses = match found {
        Ok(found) => found,
        Err(_) => {
            assert(tables_from(
                buffer@,
                uses_found,
                php_query_matches(buffer@, ASSIGNMENT_QUERY@),
            ) is None);
            return None;
        },
    };
    let found = run_query(buffer, ASSIGNMENT_QUERY);
    let ghost assignments_found = found_view(found);
    let assignments = match found {
        Ok(found) => found,
        Err(_) => {
            assert(tables_from(buffer@, uses_found, assignments_found) is None);
            return None;
        },
    };
    let namespaces = build_aliases(buffer, &uses);
    let variables = build_variables(buffer, &namespaces, &assignments);
    let tables = Some(Tables { namespaces, variables });
    assert(tables_view(tables) == tables_from(buffer@, uses_found, assignments_found));
    tables
}

/// A method called on a variable, the cursor on the method's name: the
/// method of the variable's class, where the table knows the variable.
pub open spec fn variable_call(
    source: Seq<u8>,
    position: Position,
    variables: Map<Seq<char>, Seq<char>>,
    found: QueryMatchView,
) -> Option<Seq<char>> {
    match (found.capture(REF_VARIABLE), found.capture(REF_METHOD)) {
        (Some(variable), Some(method)) => if range_includes(method.range, position)
            && variables.contains_key(text_of(source, variable)) {
            Some(method_fqn(variables[text_of(source, variable)], text_of(source, method)))
        } else {
            None
        },
        _ => None,
    }
}

/// The class itself where the cursor is on its name, else its method.
pub open spec fn class_or_method(
    source: Seq<u8>,
    position: Position,
    fqn: Seq<char>,
    class: CapturedView,
    method: CapturedView,
) -> Seq<char> {
    if range_includes(class.range, position) {
        fqn
    } else {
        method_fqn(fqn, text_of(source, method))
    }
}

/// A method called on a class or on a new object of it, the cursor on the
/// name of the class or of the method, where the alias table knows the
/// class.
pub open spec fn class_call(
    source: Seq<u8>,
    position: Position,
    aliases: Map<Seq<char>, Seq<char>>,
    found: QueryMatchView,
) -> Option<Seq<char>> {
    match (found.capture(REF_CLASS), found.capture(REF_METHOD)) {
        (Some(class), Some(method)) => if (range_includes(class.range, position)
            || range_includes(method.range, position)) && aliases.contains_key(
            text_of(source, class),
        ) {
            Some(
                class_or_method(source, position, aliases[text_of(source, class)], class, method),
            )
        } else {
            None
        },
        _ => None,
    }
}

/// A method called on a new object whose class is written with a namespace,
/// the cursor on the name of the class or of the method.
pub open spec fn qualified_class_call(
    source: Seq<u8>,
    position: Position,
    aliases: Map<Seq<char>, Seq<char>>,
    found: QueryMatchView,
) -> Option<Seq<char>> {
    match (found.capture(REF_PREFIX), found.capture(REF_CLASS), found.capture(REF_METHOD)) {
        (Some(prefix), Some(class), Some(method)) => if range_includes(class.range, position)
            || range_includes(method.range, position) {
            Some(
                class_or_method(
                    source,
                    position,
                    qualified(resolved(aliases, text_of(source, prefix)), text_of(source, class)),
                    class,
                    method,
                ),
            )
        } else {
            None
        },
        _ => None,
    }
}

/// A new object, the cursor on the name of its class, where the alias table
/// knows the class.
pub open spec fn creation(
    source: Seq<u8>,
    position: Position,
    aliases: Map<Seq<char>, Seq<char>>,
    found: QueryMatchView,
) -> Option<Seq<char>> {
    match found.capture(REF_CLASS) {
        Some(class) => if range_includes(class.range, position) {
            lookup(aliases, text_of(source, class))
        } else {
            None
        },
        None => None,
    }
}

/// A new object whose class is written with a namespace, the cursor on the
/// name of the class.
pub open spec fn qualified_creation(
    source: Seq<u8>,
    position: Position,
    aliases: Map<Seq<char>, Seq<char>>,
    found: QueryMatchView,
) -> Option<Seq<char>> {
    match (found.capture(REF_PREFIX), found.capture(REF_CLASS)) {
        (Some(prefix), Some(class)) => if range_includes(class.range, position) {
            Some(qualified(resolved(aliases, text_of(source, prefix)), text_of(source, class)))
        } else {
            None
        },
        _ => None,
    }
}

/// What one match of the reference query resolves to at the cursor.
pub open spec fn resolve_match(
    source: Seq<u8>,
    position: Position,
    aliases: Map<Seq<char>, Seq<char>>,
    variables: Map<Seq<char>, Seq<char>>,
    found: QueryMatchView,
) -> Option<Seq<char>> {
    if found.pattern_index == 0 {
        variable_call(source, position, variables, found)
    } else if found.pattern_index == 1 || found.pattern_index == 3 {
        class_call(source, position, aliases, found)
    } else if found.pattern_index == 2 {
        qualified_class_call(source, position, aliases, found)
    } else if found.pattern_index == 4 {
        creation(source, position, aliases, found)
    } else if found.pattern_index == 5 {
        qualified_creation(source, position, aliases, found)
    } else {
        None
    }
}

/// What the first match of one pattern that resolves at the cursor resolves to.
pub open spec fn first_of_shape(
    source: Seq<u8>,
    position: Position,
    aliases: Map<Seq<char>, Seq<char>>,
    variables: Map<Seq<char>, Seq<char>>,
    found: Seq<QueryMatchView>,
    shape: usize,
) -> Option<Seq<char>>
    decreases found.len(),
{
    if found.len() == 0 {
        None
    } else if found[0].pattern_index == shape && resolve_match(
        source,
        position,
        aliases,
        variables,
        found[0],
    ) is Some {
        resolve_match(source, position, aliases, variables, found[0])
    } else {
        first_of_shape(source, position, aliases, variables, found.drop_first(), shape)
    }
}

/// What the cursor resolves to: the patterns are tried in their order from
/// `shape` on, and the first match that resolves decides.
pub open spec fn resolve_from(
    source: Seq<u8>,
    position: Position,
    aliases: Map<Seq<char>, Seq<char>>,
    variables: Map<Seq<char>, Seq<char>>,
    found: Seq<QueryMatchView>,
    shape: usize,
) -> Option<Seq<char>>
    decreases SHAPES - shape,
{
    if shape >= SHAPES {
        None
    } else {
        match first_of_shape(source, position, aliases, variables, found, shape) {
            Some(fqn) => Some(fqn),
            None => resolve_from(
                source,
                position,
                aliases,
                variables,
                found,
                (shape + 1) as usize,
            ),
        }
    }
}

/// What the cursor resolves to.
pub open spec fn resolve(
    source: Seq<u8>,
    position: Position,
    aliases: Map<Seq<char>, Seq<char>>,
    variables: Map<Seq<char>, Seq<char>>,
    found: Seq<QueryMatchView>,
) -> Option<Seq<char>> {
    resolve_from(source, position, aliases, variables, found, 0)
}

/// What one match of the reference query resolves to at the cursor.
pub fn resolve_one(source: &[u8], position: &Position, tables: &Tables, found: &QueryMatch) -> (fqn:
    Option<String>)
    ensures
        opt_text(fqn) == resolve_match(
            source@,
            *position,
            tables.namespaces@,
            tables.variables@,
            found@,
        ),
{
    let shape = found.pattern_index;
    if shape == 0 {
        match (found.capture(REF_VARIABLE), found.capture(REF_METHOD)) {
            (Some(variable), Some(method)) => {
                if !method.range.includes(position) {
                    return None;
                }
                let name = text_or_empty(source, &variable.range);
                match tables.variables.get(name.as_str()) {
                    Some(class) => Some(member(class, text_or_empty(source, &method.range))),
                    None => None,
                }
            },
            _ => None,
        }
    } else if shape == 1 || shape == 3 {
        match (found.capture(REF_CLASS), found.capture(REF_METHOD)) {
            (Some(class), Some(method)) => {
                let on_class = class.range.includes(position);
                if !on_class && !method.range.includes(position) {
                    return None;
                }
                let name = text_or_empty(source, &class.range);
                match tables.namespaces.get(name.as_str()) {
                    Some(fqn) => if on_class {
                        Some(fqn)
                    } else {
                        Some(member(fqn, text_or_empty(source, &method.range)))
                    },
                    None => None,
                }
            },
            _ => None,
        }
    } else if shape == 2 {
        match (found.capture(REF_PREFIX), found.capture(REF_CLASS), found.capture(REF_METHOD)) {
            (Some(prefix), Some(class), Some(method)) => {
                let on_class = class.range.includes(position);
                if !on_class && !method.range.includes(position) {
                    return None;
                }
                let fqn = qualify(
                    tables.namespaces.resolve(text_or_empty(source, &prefix.range).as_str()),
                    text_or_empty(source, &class.range),
                );
                if on_class {
                    Some(fqn)
                } else {
                    Some(member(fqn, text_or_empty(source, &method.range)))
                }
            },
            _ => None,
        }
    } else if shape == 4 {
        match found.capture(REF_CLASS) {
            Some(class) => {
                if !class.range.includes(position) {
                    return None;
                }
                tables.namespaces.get(text_or_empty(source, &class.range).as_str())
            },
            None => None,
        }
    } else if shape == 5 {
        match (found.capture(REF_PREFIX), found.capture(REF_CLASS)) {
            (Some(prefix), Some(class)) => {
                if !class.range.includes(position) {
                    return None;
                }
                Some(
                    qualify(
                        tables.namespaces.resolve(text_or_empty(source, &prefix.range).as_str()),
                        text_or_empty(source, &class.range),
                    ),
                )
            },
            _ => None,
        }
    } else {
        None
    }
}

/// The name of a method of a class.
pub fn member(class: String, method: String) -> (fqn: String)
    ensures
        fqn@ == method_fqn(class@, method@),
{
    append(append(class.as_str(), "::").as_str(), method.as_str())
}

/// The name of a class under a namespace prefix.
pub fn qualify(prefix: String, class: String) -> (fqn: String)
    ensures
        fqn@ == qualified(prefix@, class@),
{
    append(append(prefix.as_str(), "\\").as_str(), class.as_str())
}

/// What the cursor resolves to, given the tables of the buffer and the
/// matches of the reference query.
pub fn resolve_reference(
    source: &[u8],
    position: &Position,
    tables: &Tables,
    found: &Vec<QueryMatch>,
) -> (fqn: Option<String>)
    ensures
        opt_text(fqn) == resolve(
            source@,
            *position,
            tables.namespaces@,
            tables.variables@,
            matches_view(found@),
        ),
{
    let ghost all = matches_view(found@);
    let ghost aliases = tables.namespaces@;
    let ghost variables = tables.variables@;
    let mut shape: usize = 0;
    while shape < SHAPES
        invariant
            shape <= SHAPES,
            all == matches_view(found@),
            aliases == tables.namespaces@,
            variables == tables.variables@,
            resolve(source@, *position, aliases, variables, all) == resolve_from(
                source@,
                *position,
                aliases,
                variables,
                all,
                shape,
            ),
        decreases SHAPES - shape,
    {
        let mut i: usize = 0;
        assert(all.skip(0) == all);
        while i < found.len()
            invariant
                i <= found.len(),
                shape < SHAPES,
                all == matches_view(found@),
                aliases == tables.namespaces@,
                variables == tables.variables@,
                first_of_shape(source@, *position, aliases, variables, all, shape)
                    == first_of_shape(
                    source@,
                    *position,
                    aliases,
                    variables,
                    all.skip(i as int),
                    shape,
                ),
                resolve(source@, *position, aliases, variables, all) == resolve_from(
                    source@,
                    *position,
                    aliases,
                    variables,
                    all,
                    shape,
                ),
            decreases found.len() - i,
        {
            proof {
                assert(all.skip(i as int).drop_first() == all.skip(i + 1));
                assert(all.skip(i as int)[0] == found@[i as int]@);
            }
            if found[i].pattern_index == shape {
                let fqn = resolve_one(source, position, tables, &found[i]);
                if fqn.is_some() {
                    return fqn;
                }
            }
            i += 1;
        }
        shape += 1;
    }
    None
}

/// What the cursor resolves to, given the tables of the buffer and the
/// answer to the reference query: what `resolve` makes of them, where there
/// are tables and an answer.
pub open spec fn reference_from(
    source: Seq<u8>,
    position: Position,
    tables: Option<(Map<Seq<char>, Seq<char>>, Map<Seq<char>, Seq<char>>)>,
    found: Result<Seq<QueryMatchView>, QueryError>,
) -> Option<Seq<char>> {
    match (tables, found) {
        (Some(tables), Ok(found)) => resolve(source, position, tables.0, tables.1, found),
        _ => None,
    }
}

/// What the cursor resolves to in an ASCII buffer: what `reference_from`
/// makes of `buffer_tables` and of the answer that `php_query_matches`
/// names.
pub open spec fn reference_at(source: Seq<u8>, position: Position) -> Option<Seq<char>> {
    reference_from(
        source,
        position,
        buffer_tables(source),
        php_query_matches(source, REFERENCE_QUERY@),
    )
}

/// Whether `fqn` can be what the cursor resolves to in a buffer: what
/// `reference_from` makes of tables that the buffer can have and of an
/// answer that the reference query can give on it.
pub open spec fn may_refer_to(source: Seq<u8>, position: Position, fqn: Option<Seq<char>>) -> bool {
    exists|
        tables: Option<(Map<Seq<char>, Seq<char>>, Map<Seq<char>, Seq<char>>)>,
        found: Result<Seq<QueryMatchView>, QueryError>,
    |
        #![trigger reference_from(source, position, tables, found)]
        may_be_tables(source, tables) && may_answer(source, REFERENCE_QUERY@, found) && fqn
            == reference_from(source, position, tables, found)
}

/// The qualified name that the cursor is on in a buffer, if it is on one.
/// In an ASCII buffer it is what `reference_at` gives; in any buffer it is
/// what `reference_from` makes of what the queries answered.
pub fn search_member_call_expressions(contents: &[u8], position: &Position) -> (fqn: Option<
    String,
>)
    ensures
        may_refer_to(contents@, *position, opt_text(fqn)),
        is_ascii_source(contents@) ==> opt_text(fqn) == reference_at(contents@, *position),
{
    let tables = index_current_buffer(contents);
    let ghost tables_found = tables_view(tables);
    let tables = match tables {
        Some(tables) => tables,
        None => {
            assert(reference_from(
                contents@,
                *position,
                tables_found,
                php_query_matches(contents@, REFERENCE_QUERY@),
            ) is None);
            return None;
        },
    };
    let found = run_query(contents, REFERENCE_QUERY);
    let ghost answer = found_view(found);
    let found = match found {
        Ok(found) => found,
        Err(_) => {
            assert(reference_from(contents@, *position, tables_found, answer) is None);
            return None;
        },
    };
    let fqn = resolve_reference(contents, position, &tables, &found);
    assert(opt_text(fqn) == reference_from(contents@, *position, tables_found, answer));
    fqn
}

} // verus!
