//! Extraction stages.

pub mod class_declaration;
pub mod class_reference;
pub mod function_declarion;
pub mod index;

use crate::db::{cleaned, ClassRecordView, SymbolIndex};
use crate::indexer::class_declaration::{
    document_records, indexed_as, lemma_ascii_document_declares,
    lemma_document_records_may_be_declared, may_declare, rows_after, ClassDeclarationIndexer,
};
use crate::indexer::index::Indexer;
use crate::syntax::{is_ascii_source, QueryError};
use crate::text::same_text;
use vstd::prelude::*;

verus! {

/// A source file of a project: its URI and what it holds.
#[derive(Debug)]
pub struct SourceFile {
    pub uri: String,
    pub contents: Vec<u8>,
}

/// Whether a failure ends the building of an index. That one document
/// gives no tree does not: the document is passed over.
pub open spec fn is_fatal(e: QueryError) -> bool {
    e != QueryError::NoTree
}

/// The failure at which the building of an index ends at a document that
/// declares `records`, if it ends there.
pub open spec fn fatal_error(records: Result<Seq<ClassRecordView>, QueryError>) -> Option<
    QueryError,
> {
    match records {
        Ok(_) => None,
        Err(e) => if is_fatal(e) {
            Some(e)
        } else {
            None
        },
    }
}

/// Whether the building of an index ends at a document that declares
/// `records`.
pub open spec fn stops_at(records: Result<Seq<ClassRecordView>, QueryError>) -> bool {
    fatal_error(records) is Some
}

/// The failure that ends the building of an index: that of the first
/// document at which it ends. `declared` holds, file by file, what the
/// documents declare.
pub open spec fn first_fatal(declared: Seq<Result<Seq<ClassRecordView>, QueryError>>) -> Option<
    QueryError,
>
    decreases declared.len(),
{
    if declared.len() == 0 {
        None
    } else {
        match fatal_error(declared[0]) {
            Some(e) => Some(e),
            None => first_fatal(declared.drop_first()),
        }
    }
}

/// The rows after the documents are gone through one after the other.
pub open spec fn index_all(
    rows: Seq<ClassRecordView>,
    declared: Seq<Result<Seq<ClassRecordView>, QueryError>>,
) -> Seq<ClassRecordView>
    decreases declared.len(),
{
    if declared.len() == 0 {
        rows
    } else {
        rows_after(index_all(rows, declared.drop_last()), declared.last())
    }
}

/// How many of the documents cannot be gone through.
pub open spec fn skipped_files(declared: Seq<Result<Seq<ClassRecordView>, QueryError>>) -> nat
    decreases declared.len(),
{
    if declared.len() == 0 {
        0
    } else if declared.last() is Err {
        skipped_files(declared.drop_last()) + 1
    } else {
        skipped_files(declared.drop_last())
    }
}

/// How many documents are gone through before the building of the index
/// ends: all of them, unless it ends at one.
pub open spec fn files_reached(declared: Seq<Result<Seq<ClassRecordView>, QueryError>>) -> nat
    decreases declared.len(),
{
    if declared.len() > 0 && !stops_at(declared[0]) {
        1 + files_reached(declared.drop_first())
    } else {
        0
    }
}

/// The rows after an index is built anew from documents that declare
/// `declared`: the index is emptied, then the documents are gone through as
/// far as the building gets.
pub open spec fn reindexed_from(
    rows: Seq<ClassRecordView>,
    declared: Seq<Result<Seq<ClassRecordView>, QueryError>>,
) -> Seq<ClassRecordView> {
    index_all(cleaned(rows), declared.take(files_reached(declared) as int))
}

/// What building an index from documents that declare `declared` answers:
/// how many documents were passed over, or the failure that ended it.
pub open spec fn reindex_outcome(declared: Seq<Result<Seq<ClassRecordView>, QueryError>>) -> Result<
    usize,
    QueryError,
> {
    match first_fatal(declared) {
        Some(e) => Err(e),
        None => Ok(skipped_files(declared) as usize),
    }
}

/// What ASCII files declare, file by file.
pub open spec fn declared_by(files: Seq<SourceFile>) -> Seq<
    Result<Seq<ClassRecordView>, QueryError>,
> {
    Seq::new(files.len(), |i: int| document_records(files[i].contents@, files[i].uri@))
}

/// Whether `declared` can be what the files declare, file by file.
pub open spec fn may_be_declared_by(
    files: Seq<SourceFile>,
    declared: Seq<Result<Seq<ClassRecordView>, QueryError>>,
) -> bool {
    &&& declared.len() == files.len()
    &&& forall|i: int|
        0 <= i < files.len() ==> may_declare(
            files[i].contents@,
            files[i].uri@,
            #[trigger] declared[i],
        )
}

/// Whether all the files are ASCII.
pub open spec fn all_ascii(files: Seq<SourceFile>) -> bool {
    forall|i: int| 0 <= i < files.len() ==> is_ascii_source((#[trigger] files[i]).contents@)
}

/// The rows after the index of a project of ASCII files is built anew.
pub open spec fn reindexed(rows: Seq<ClassRecordView>, files: Seq<SourceFile>) -> Seq<
    ClassRecordView,
> {
    reindexed_from(rows, declared_by(files))
}

/// The documents reached are those before the first at which the building
/// ends.
pub proof fn lemma_files_reached(declared: Seq<Result<Seq<ClassRecordView>, QueryError>>)
    ensures
        files_reached(declared) <= declared.len(),
        forall|i: int| 0 <= i < files_reached(declared) ==> !stops_at(#[trigger] declared[i]),
        files_reached(declared) < declared.len() ==> first_fatal(declared) == fatal_error(
            declared[files_reached(declared) as int],
        ) && stops_at(declared[files_reached(declared) as int]),
        files_reached(declared) >= declared.len() ==> first_fatal(declared) is None,
    decreases declared.len(),
{
    if declared.len() > 0 && !stops_at(declared[0]) {
        let rest = declared.drop_first();
        lemma_files_reached(rest);
        assert forall|i: int| 0 <= i < files_reached(declared) implies !stops_at(
            #[trigger] declared[i],
        ) by {
            if i > 0 {
                assert(declared[i] == rest[i - 1]);
            }
        }
        if files_reached(declared) < declared.len() {
            assert(declared[files_reached(declared) as int] == rest[files_reached(rest) as int]);
        }
    }
}

/// What ASCII files can declare is what `declared_by` gives.
pub proof fn lemma_ascii_files_declare(
    files: Seq<SourceFile>,
    declared: Seq<Result<Seq<ClassRecordView>, QueryError>>,
)
    requires
        all_ascii(files),
        may_be_declared_by(files, declared),
    ensures
        declared == declared_by(files),
{
    assert forall|i: int| 0 <= i < files.len() implies declared[i] == declared_by(files)[i] by {
        assert(is_ascii_source(files[i].contents@));
        lemma_ascii_document_declares(files[i].contents@, files[i].uri@, declared[i]);
    }
    assert(declared =~= declared_by(files));
}

/// Builds the index of a project anew: empties the index, then goes through
/// the files one after the other. A file that gives no tree is passed over;
/// any other failure of a query ends the building and is returned. Returns
/// how many files were passed over. Of ASCII files the rows are those that
/// `reindexed` gives; of any files they are what `reindexed_from` makes of
/// what the files were found to declare.
pub fn reindex_files(index: &mut SymbolIndex, files: &Vec<SourceFile>) -> (result: Result<
    usize,
    QueryError,
>)
    ensures
        final(index).wf(),
        exists|declared: Seq<Result<Seq<ClassRecordView>, QueryError>>|
            #![trigger may_be_declared_by(files@, declared)]
            may_be_declared_by(files@, declared) && final(index)@ == reindexed_from(
                old(index)@,
                declared,
            ) && result == reindex_outcome(declared),
        all_ascii(files@) ==> final(index)@ == reindexed(old(index)@, files@) && result
            == reindex_outcome(declared_by(files@)),
{
    index.clean_index();
    let stage = ClassDeclarationIndexer {  };
    let mut skipped: usize = 0;
    let mut i: usize = 0;
    let ghost mut seen: Seq<Result<Seq<ClassRecordView>, QueryError>> = Seq::empty();
    while i < files.len()
        invariant
            i <= files.len(),
            skipped <= i,
            index.wf(),
            seen.len() == i,
            forall|k: int|
                0 <= k < i ==> may_declare(
                    files@[k].contents@,
                    files@[k].uri@,
                    #[trigger] seen[k],
                ),
            forall|k: int| 0 <= k < i ==> !stops_at(#[trigger] seen[k]),
            index@ == index_all(Seq::empty(), seen),
            skipped == skipped_files(seen),
        decreases files.len() - i,
    {
        let ghost before = index@;
        let done = stage.index(index, files[i].contents.as_slice(), files[i].uri.as_str());
        let ghost records = choose|records: Result<Seq<ClassRecordView>, QueryError>|
            #![trigger may_declare(files@[i as int].contents@, files@[i as int].uri@, records)]
            may_declare(files@[i as int].contents@, files@[i as int].uri@, records) && done
                == indexed_as(before, records) && index@ == rows_after(before, records);
        let ghost next = seen.push(records);
        proof {
            assert(next.drop_last() == seen);
            assert(next.last() == records);
        }
        match done {
            Ok(_) => {},
            Err(QueryError::NoTree) => {
                skipped += 1;
            },
            Err(e) => {
                proof {
                    let rest = declared_by(files@).skip(i + 1);
                    let declared = next + rest;
                    assert forall|k: int| 0 <= k < files.len() implies may_declare(
                        files@[k].contents@,
                        files@[k].uri@,
                        #[trigger] declared[k],
                    ) by {
                        if k < i {
                            assert(declared[k] == seen[k]);
                        } else if k > i {
                            assert(declared[k] == document_records(
                                files@[k].contents@,
                                files@[k].uri@,
                            ));
                            lemma_document_records_may_be_declared(
                                files@[k].contents@,
                                files@[k].uri@,
                            );
                        }
                    }
                    assert(may_be_declared_by(files@, declared));
                    lemma_files_reached(declared);
                    assert(stops_at(declared[i as int]));
                    assert forall|k: int| 0 <= k < i implies !stops_at(#[trigger] declared[k]) by {
                        assert(declared[k] == seen[k]);
                    }
                    assert(files_reached(declared) == i);
                    assert(declared.take(i as int) == seen);
                    if all_ascii(files@) {
                        lemma_ascii_files_declare(files@, declared);
                    }
                }
                return Err(e);
            },
        }
        proof {
            seen = next;
        }
        i += 1;
    }
    proof {
        lemma_files_reached(seen);
        assert(files_reached(seen) == files.len());
        assert(seen.take(seen.len() as int) == seen);
        assert(may_be_declared_by(files@, seen));
        if all_ascii(files@) {
            lemma_ascii_files_declare(files@, seen);
        }
    }
    Ok(skipped)
}

/// Whether a file with this extension is a source file.
pub fn is_source_extension(extension: &str) -> (php: bool)
    ensures
        php == (extension@ == "php"@),
{
    same_text(extension, "php")
}

/// The name of the stage for enum declarations. Nothing is indexed under it.
#[derive(Debug, Default)]
pub struct EnumDeclarationIndexer {}

/// The name of the stage for function declarations. Nothing is indexed
/// under it.
#[derive(Debug, Default)]
pub struct FunctionDeclarationIndexer {}

/// The name of the stage for interface declarations. Nothing is indexed
/// under it.
#[derive(Debug, Default)]
pub struct InterfaceDeclarationIndexer {}

/// The name of the stage for trait declarations. Nothing is indexed under it.
#[derive(Debug, Default)]
pub struct TraitDeclarationIndexer {}

/// The name of the stage for the traits that a class uses. Nothing is
/// indexed under it.
#[derive(Debug, Default)]
pub struct TraitUseClauseIndexer {}

/// The name of the stage for references to classes, interfaces and traits.
/// Nothing is indexed under it.
#[derive(Debug, Default)]
pub struct ClassLikeReferenceIndexer {}

/// The name of the stage for calls of functions. Nothing is indexed under it.
#[derive(Debug, Default)]
pub struct FunctionReferenceIndexer {}

/// The name of the stage for constants. Nothing is indexed under it.
#[derive(Debug, Default)]
pub struct ConstantDeclarationIndexer {}

/// The name of the stage for members. Nothing is indexed under it.
#[derive(Debug, Default)]
pub struct MemberIndexer {}

} // verus!
