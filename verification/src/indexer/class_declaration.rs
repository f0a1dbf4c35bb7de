//! Classes and their methods: from the matches of three queries to records.

use crate::comment::{describe, description_of};
use crate::db::{failed_saves, records_view, save_all, ClassRecord, ClassRecordView, SymbolIndex};
use crate::indexer::index::{Indexed, Indexer};
use crate::location::{range_of, to_location, LocationView};
use crate::syntax::{
    found_view, is_ascii_source, matches_view, may_answer, php_query_matches,
    range_text_or_empty, run_query, text_at, text_or_empty, Captured, CapturedView, QueryError,
    QueryMatch, QueryMatchView,
};
use crate::text::{append, same_text};
use vstd::prelude::*;

verus! {

/// Captures the name of a namespace definition.
pub const NAMESPACE_QUERY: &'static str = "(namespace_definition (namespace_name) @ns_name)";

/// Captures the name of a class declaration, and the declaration.
pub const CLASS_QUERY: &'static str = "(class_declaration name: (name) @class_name) @class";

/// Captures, for a method in the body of a class: the name of the class, the
/// method's name, its parameters, its return type where it has one, and the
/// method's declaration.
pub const METHOD_QUERY: &'static str =
    "(class_declaration name: (name) @class_name body: (declaration_list (method_declaration name: (name) @method_name parameters: (formal_parameters) @params return_type: (_)? @return_type) @method))";

/// Index of the capture `ns_name` in the namespace query.
pub const NS_NAME: u32 = 0;

/// Index of the capture `class_name` in the class query and in the method
/// query.
pub const CLASS_NAME: u32 = 0;

/// Index of the capture `class` in the class query.
pub const CLASS_NODE: u32 = 1;

/// Index of the capture `method_name` in the method query.
pub const METHOD_NAME: u32 = 1;

/// Index of the capture `params` in the method query.
pub const METHOD_PARAMS: u32 = 2;

/// Index of the capture `return_type` in the method query.
pub const METHOD_RETURN_TYPE: u32 = 3;

/// Index of the capture `method` in the method query.
pub const METHOD_NODE: u32 = 4;

/// The namespace of a document: the name that the last namespace definition
/// gives, empty where there is none.
pub open spec fn namespace_of(source: Seq<u8>, found: Seq<QueryMatchView>) -> Seq<char>
    decreases found.len(),
{
    if found.len() == 0 {
        Seq::empty()
    } else {
        match found.last().capture(NS_NAME) {
            Some(name) => range_text_or_empty(source, name.range),
            None => namespace_of(source, found.drop_last()),
        }
    }
}

/// A namespace written from the root: with a backslash before it, unless it
/// is empty.
pub open spec fn rooted(namespace: Seq<char>) -> Seq<char> {
    if namespace.len() == 0 {
        namespace
    } else {
        "\\"@ + namespace
    }
}

/// The qualified name of a class in a namespace, written from the root:
/// `\N\C`, and `\C` without a namespace. The names that the resolver gives
/// carry no backslash at their start, so none of them is the name under
/// which this function puts a class or a method into the index.
pub open spec fn class_fqn(namespace: Seq<char>, class: Seq<char>) -> Seq<char> {
    rooted(namespace) + "\\"@ + class
}

/// The qualified name of a method of a class.
pub open spec fn method_fqn(class: Seq<char>, method: Seq<char>) -> Seq<char> {
    class + "::"@ + method
}

/// The comment just before a declaration: the text of the node before it
/// where that is a comment, else empty.
pub open spec fn comment_before(source: Seq<u8>, node: CapturedView) -> Seq<char> {
    match node.lead {
        Some(lead) => if lead.0 == "comment"@ {
            range_text_or_empty(source, lead.1)
        } else {
            Seq::empty()
        },
        None => Seq::empty(),
    }
}

/// The record of the class that a match of the class query found.
pub open spec fn class_record(
    source: Seq<u8>,
    url: Seq<char>,
    namespace: Seq<char>,
    found: QueryMatchView,
) -> Option<ClassRecordView> {
    match (found.capture(CLASS_NAME), found.capture(CLASS_NODE)) {
        (Some(name), Some(node)) => Some(
            ClassRecordView {
                id: 0,
                fqn: class_fqn(namespace, range_text_or_empty(source, name.range)),
                description: description_of(comment_before(source, node)),
                attributes: None,
                parameters: None,
                return_type: None,
                location: LocationView { uri: url, range: range_of(node.range) },
            },
        ),
        _ => None,
    }
}

/// The return type that a match of the method query captured.
pub open spec fn return_type_of(source: Seq<u8>, found: QueryMatchView) -> Option<Seq<char>> {
    match found.capture(METHOD_RETURN_TYPE) {
        Some(node) => crate::syntax::range_text(source, node.range),
        None => None,
    }
}

/// The record of the method that a match of the method query found.
pub open spec fn method_record(
    source: Seq<u8>,
    url: Seq<char>,
    namespace: Seq<char>,
    found: QueryMatchView,
) -> Option<ClassRecordView> {
    match (
        found.capture(CLASS_NAME),
        found.capture(METHOD_NAME),
        found.capture(METHOD_PARAMS),
        found.capture(METHOD_NODE),
    ) {
        (Some(class), Some(name), Some(params), Some(node)) => Some(
            ClassRecordView {
                id: 0,
                fqn: method_fqn(
                    class_fqn(namespace, range_text_or_empty(source, class.range)),
                    range_text_or_empty(source, name.range),
                ),
                description: description_of(comment_before(source, node)),
                attributes: None,
                parameters: Some(range_text_or_empty(source, params.range)),
                return_type: return_type_of(source, found),
                location: LocationView { uri: url, range: range_of(name.range) },
            },
        ),
        _ => None,
    }
}

/// The records of the classes that the class query found, in its order.
pub open spec fn class_records(
    source: Seq<u8>,
    url: Seq<char>,
    namespace: Seq<char>,
    found: Seq<QueryMatchView>,
) -> Seq<ClassRecordView>
    decreases found.len(),
{
    if found.len() == 0 {
        Seq::empty()
    } else {
        let before = class_records(source, url, namespace, found.drop_last());
        match class_record(source, url, namespace, found.last()) {
            Some(record) => before.push(record),
            None => before,
        }
    }
}

/// The records of the methods that the method query found, in its order.
pub open spec fn method_records(
    source: Seq<u8>,
    url: Seq<char>,
    namespace: Seq<char>,
    found: Seq<QueryMatchView>,
) -> Seq<ClassRecordView>
    decreases found.len(),
{
    if found.len() == 0 {
        Seq::empty()
    } else {
        let before = method_records(source, url, namespace, found.drop_last());
        match method_record(source, url, namespace, found.last()) {
            Some(record) => before.push(record),
            None => before,
        }
    }
}

/// The records that a document declares, given what the three queries found
/// in it: its classes first, then their methods.
pub open spec fn declared_records(
    source: Seq<u8>,
    url: Seq<char>,
    namespaces: Seq<QueryMatchView>,
    classes: Seq<QueryMatchView>,
    methods: Seq<QueryMatchView>,
) -> Seq<ClassRecordView> {
    let namespace = namespace_of(source, namespaces);
    class_records(source, url, namespace, classes) + method_records(
        source,
        url,
        namespace,
        methods,
    )
}

/// The namespace of a document.
pub fn document_namespace(document: &[u8], found: &Vec<QueryMatch>) -> (namespace: String)
    ensures
        namespace@ == namespace_of(document@, matches_view(found@)),
{
    let ghost all = matches_view(found@);
    let mut i: usize = found.len();
    assert(all.take(i as int) == all);
    while i > 0
        invariant
            i <= found.len(),
            all == matches_view(found@),
            namespace_of(document@, all) == namespace_of(document@, all.take(i as int)),
        decreases i,
    {
        i -= 1;
        proof {
            assert(all.take(i + 1).drop_last() == all.take(i as int));
            assert(all.take(i + 1).last() == found@[i as int]@);
        }
        match found[i].capture(NS_NAME) {
            Some(name) => {
                return text_or_empty(document, &name.range);
            },
            None => {},
        }
    }
    String::new()
}

/// The qualified name of a class in a namespace.
pub fn qualify_class(namespace: &str, class: &str) -> (fqn: String)
    ensures
        fqn@ == class_fqn(namespace@, class@),
{
    let mut fqn = String::new();
    if namespace.unicode_len() > 0 {
        fqn.append("\\");
        fqn.append(namespace);
    }
    fqn.append("\\");
    fqn.append(class);
    assert(fqn@ =~= class_fqn(namespace@, class@));
    fqn
}

/// The comment just before a captured declaration, empty where there is none.
pub fn leading_comment(document: &[u8], node: &Captured) -> (comment: String)
    ensures
        comment@ == comment_before(document@, node@),
{
    match &node.lead {
        Some(lead) => {
            if same_text(lead.0.as_str(), "comment") {
                text_or_empty(document, &lead.1)
            } else {
                String::new()
            }
        },
        None => String::new(),
    }
}

/// The record of the class that a match of the class query found.
pub fn class_record_of(document: &[u8], url: &str, namespace: &str, found: &QueryMatch) -> (record:
    Option<ClassRecord>)
    ensures
        match record {
            Some(r) => class_record(document@, url@, namespace@, found@) == Some(r@),
            None => class_record(document@, url@, namespace@, found@).is_none(),
        },
{
    let name = match found.capture(CLASS_NAME) {
        Some(name) => name,
        None => {
            return None;
        },
    };
    let node = match found.capture(CLASS_NODE) {
        Some(node) => node,
        None => {
            return None;
        },
    };
    let class = text_or_empty(document, &name.range);
    let comment = leading_comment(document, node);
    Some(
        ClassRecord {
            id: 0,
            fqn: qualify_class(namespace, class.as_str()),
            description: describe(comment.as_str()),
            attributes: None,
            parameters: None,
            return_type: None,
            location: to_location(&node.range, url),
        },
    )
}

/// The record of the method that a match of the method query found.
pub fn method_record_of(document: &[u8], url: &str, namespace: &str, found: &QueryMatch) -> (record:
    Option<ClassRecord>)
    ensures
        match record {
            Some(r) => method_record(document@, url@, namespace@, found@) == Some(r@),
            None => method_record(document@, url@, namespace@, found@).is_none(),
        },
{
    let class = match found.capture(CLASS_NAME) {
        Some(class) => class,
        None => {
            return None;
        },
    };
    let name = match found.capture(METHOD_NAME) {
        Some(name) => name,
        None => {
            return None;
        },
    };
    let params = match found.capture(METHOD_PARAMS) {
        Some(params) => params,
        None => {
            return None;
        },
    };
    let node = match found.capture(METHOD_NODE) {
        Some(node) => node,
        None => {
            return None;
        },
    };
    let return_type = match found.capture(METHOD_RETURN_TYPE) {
        Some(node) => text_at(document, &node.range),
        None => None,
    };
    let class = text_or_empty(document, &class.range);
    let method = text_or_empty(document, &name.range);
    let owner = qualify_class(namespace, class.as_str());
    let comment = leading_comment(document, node);
    Some(
        ClassRecord {
            id: 0,
            fqn: append(append(owner.as_str(), "::").as_str(), method.as_str()),
            description: describe(comment.as_str()),
            attributes: None,
            parameters: Some(text_or_empty(document, &params.range)),
            return_type,
            location: to_location(&name.range, url),
        },
    )
}

/// The records that a document declares, given what the three queries found
/// in it.
pub fn extract_records(
    document: &[u8],
    url: &str,
    namespaces: &Vec<QueryMatch>,
    classes: &Vec<QueryMatch>,
    methods: &Vec<QueryMatch>,
) -> (records: Vec<ClassRecord>)
    ensures
        records_view(records@) == declared_records(
            document@,
            url@,
            matches_view(namespaces@),
            matches_view(classes@),
            matches_view(methods@),
        ),
{
    let namespace = document_namespace(document, namespaces);
    let mut records: Vec<ClassRecord> = Vec::new();
    let ghost all_classes = matches_view(classes@);
    let mut i: usize = 0;
    while i < classes.len()
        invariant
            i <= classes.len(),
            all_classes == matches_view(classes@),
            records_view(records@) == class_records(
                document@,
                url@,
                namespace@,
                all_classes.take(i as int),
            ),
        decreases classes.len() - i,
    {
        proof {
            assert(all_classes.take(i + 1).drop_last() == all_classes.take(i as int));
            assert(all_classes.take(i + 1).last() == classes@[i as int]@);
        }
        match class_record_of(document, url, namespace.as_str(), &classes[i]) {
            Some(record) => {
                let ghost before = records_view(records@);
                records.push(record);
                assert(records_view(records@) =~= before.push(record@));
            },
            None => {},
        }
        i += 1;
    }
    assert(all_classes.take(classes.len() as int) == all_classes);
    let ghost class_part = records_view(records@);
    let ghost all_methods = matches_view(methods@);
    let mut j: usize = 0;
    assert(records_view(records@) =~= class_part + Seq::<ClassRecordView>::empty());
    while j < methods.len()
        invariant
            j <= methods.len(),
            all_methods == matches_view(methods@),
            records_view(records@) == class_part + method_records(
                document@,
                url@,
                namespace@,
                all_methods.take(j as int),
            ),
        decreases methods.len() - j,
    {
        proof {
            assert(all_methods.take(j + 1).drop_last() == all_methods.take(j as int));
            assert(all_methods.take(j + 1).last() == methods@[j as int]@);
        }
        match method_record_of(document, url, namespace.as_str(), &methods[j]) {
            Some(record) => {
                let ghost before = records_view(records@);
                records.push(record);
                assert(records_view(records@) =~= before.push(record@));
            },
            None => {},
        }
        j += 1;
    }
    assert(all_methods.take(methods.len() as int) == all_methods);
    records
}

/// The stage that indexes classes and their methods.
#[derive(Debug, Default)]
pub struct ClassDeclarationIndexer {}

/// The records that a document declares, given the answers to the three
/// queries: what `declared_records` makes of them; where one gives none,
/// the error of the first that gives none.
pub open spec fn records_from(
    source: Seq<u8>,
    url: Seq<char>,
    namespaces: Result<Seq<QueryMatchView>, QueryError>,
    classes: Result<Seq<QueryMatchView>, QueryError>,
    methods: Result<Seq<QueryMatchView>, QueryError>,
) -> Result<Seq<ClassRecordView>, QueryError> {
    match namespaces {
        Ok(namespaces) => match classes {
            Ok(classes) => match methods {
                Ok(methods) => Ok(declared_records(source, url, namespaces, classes, methods)),
                Err(e) => Err(e),
            },
            Err(e) => Err(e),
        },
        Err(e) => Err(e),
    }
}

/// The records that an ASCII document declares: what `records_from` makes
/// of the answers that `php_query_matches` names.
pub open spec fn document_records(source: Seq<u8>, url: Seq<char>) -> Result<
    Seq<ClassRecordView>,
    QueryError,
> {
    records_from(
        source,
        url,
        php_query_matches(source, NAMESPACE_QUERY@),
        php_query_matches(source, CLASS_QUERY@),
        php_query_matches(source, METHOD_QUERY@),
    )
}

/// Whether `records` can be what a document declares: what `records_from`
/// makes of answers that the three queries can give on it.
pub open spec fn may_declare(
    source: Seq<u8>,
    url: Seq<char>,
    records: Result<Seq<ClassRecordView>, QueryError>,
) -> bool {
    exists|
        namespaces: Result<Seq<QueryMatchView>, QueryError>,
        classes: Result<Seq<QueryMatchView>, QueryError>,
        methods: Result<Seq<QueryMatchView>, QueryError>,
    |
        #![trigger records_from(source, url, namespaces, classes, methods)]
        may_answer(source, NAMESPACE_QUERY@, namespaces) && may_answer(
            source,
            CLASS_QUERY@,
            classes,
        ) && may_answer(source, METHOD_QUERY@, methods) && records == records_from(
            source,
            url,
            namespaces,
            classes,
            methods,
        )
}

/// What `document_records` gives can be what the document declares.
pub proof fn lemma_document_records_may_be_declared(source: Seq<u8>, url: Seq<char>)
    ensures
        may_declare(source, url, document_records(source, url)),
{
    let namespaces = php_query_matches(source, NAMESPACE_QUERY@);
    let classes = php_query_matches(source, CLASS_QUERY@);
    let methods = php_query_matches(source, METHOD_QUERY@);
    assert(document_records(source, url) == records_from(
        source,
        url,
        namespaces,
        classes,
        methods,
    ));
}

/// What an ASCII document can declare is what `document_records` gives.
pub proof fn lemma_ascii_document_declares(
    source: Seq<u8>,
    url: Seq<char>,
    records: Result<Seq<ClassRecordView>, QueryError>,
)
    requires
        is_ascii_source(source),
        may_declare(source, url, records),
    ensures
        records == document_records(source, url),
{
}

/// The view of the records found, or of the error in their place.
pub open spec fn found_records(records: Result<Vec<ClassRecord>, QueryError>) -> Result<
    Seq<ClassRecordView>,
    QueryError,
> {
    match records {
        Ok(list) => Ok(records_view(list@)),
        Err(e) => Err(e),
    }
}

/// The records that a document declares. Of an ASCII document they are
/// what `document_records` gives; of any document they are what
/// `records_from` makes of what the three queries answered.
pub fn records_of_document(document: &[u8], url: &str) -> (records: Result<
    Vec<ClassRecord>,
    QueryError,
>)
    ensures
        may_declare(document@, url@, found_records(records)),
        is_ascii_source(document@) ==> found_records(records) == document_records(
            document@,
            url@,
        ),
{
    let ghost named_classes = php_query_matches(document@, CLASS_QUERY@);
    let ghost named_methods = php_query_matches(document@, METHOD_QUERY@);
    let found = run_query(document, NAMESPACE_QUERY);
    let ghost namespaces_found = found_view(found);
    let namespaces = match found {
        Ok(found) => found,
        Err(e) => {
            assert(Err::<Seq<ClassRecordView>, QueryError>(e) == records_from(
                document@,
                url@,
                namespaces_found,
                named_classes,
                named_methods,
            ));
            return Err(e);
        },
    };
    let found = run_query(document, CLASS_QUERY);
    let ghost classes_found = found_view(found);
    let classes = match found {
        Ok(found) => found,
        Err(e) => {
            assert(Err::<Seq<ClassRecordView>, QueryError>(e) == records_from(
                document@,
                url@,
                namespaces_found,
                classes_found,
                named_methods,
            ));
            return Err(e);
        },
    };
    let found = run_query(document, METHOD_QUERY);
    let ghost methods_found = found_view(found);
    let methods = match found {
        Ok(found) => found,
        Err(e) => {
            assert(Err::<Seq<ClassRecordView>, QueryError>(e) == records_from(
                document@,
                url@,
                namespaces_found,
                classes_found,
                methods_found,
            ));
            return Err(e);
        },
    };
    let records = extract_records(document, url, &namespaces, &classes, &methods);
    assert(Ok::<Seq<ClassRecordView>, QueryError>(records_view(records@)) == records_from(
        document@,
        url@,
        namespaces_found,
        classes_found,
        methods_found,
    ));
    Ok(records)
}

/// The rows of an index after a document is gone through that declares
/// `records`; a document that cannot be gone through changes nothing.
pub open spec fn rows_after(
    rows: Seq<ClassRecordView>,
    records: Result<Seq<ClassRecordView>, QueryError>,
) -> Seq<ClassRecordView> {
    match records {
        Ok(list) => save_all(rows, list),
        Err(_) => rows,
    }
}

/// What going through a document that declares `records` answers.
pub open spec fn indexed_as(
    rows: Seq<ClassRecordView>,
    records: Result<Seq<ClassRecordView>, QueryError>,
) -> Result<Indexed, QueryError> {
    match records {
        Ok(list) => Ok(
            Indexed { records: list.len() as usize, failed: failed_saves(rows, list) as usize },
        ),
        Err(e) => Err(e),
    }
}

impl Indexer for ClassDeclarationIndexer {
    /// Finds the classes and methods that a document declares and saves them
    /// one after the other. Fails, and leaves the index as it is, only where
    /// a query gives no answer. Of an ASCII document the records are what
    /// `document_records` gives.
    fn index(&self, index: &mut SymbolIndex, document: &[u8], url: &str) -> (result: Result<
        Indexed,
        QueryError,
    >)
        ensures
            exists|records: Result<Seq<ClassRecordView>, QueryError>|
                #![trigger may_declare(document@, url@, records)]
                may_declare(document@, url@, records) && result == indexed_as(
                    old(index)@,
                    records,
                ) && final(index)@ == rows_after(old(index)@, records),
            is_ascii_source(document@) ==> result == indexed_as(
                old(index)@,
                document_records(document@, url@),
            ) && final(index)@ == rows_after(old(index)@, document_records(document@, url@)),
    {
        let found = records_of_document(document, url);
        let ghost declared = found_records(found);
        match found {
            Ok(records) => {
                let failed = index.save_rows(&records);
                let result = Ok(Indexed { records: records.len(), failed });
                assert(result == indexed_as(old(index)@, declared));
                assert(index@ == rows_after(old(index)@, declared));
                result
            },
            Err(e) => Err(e),
        }
    }
}

} // verus!
