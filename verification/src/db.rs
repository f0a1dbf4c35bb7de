//! Declaration records and the index that keeps them.

use crate::indexer::index::Index;
use crate::like::{like, like_matches};
use crate::location::{Location, LocationView};
use crate::syntax::opt_text;
use vstd::prelude::*;

verus! {

/// The kind of a declaration record.
#[derive(Debug, Clone, Copy, PartialEq, Eq, Structural)]
pub enum ClassRecordKind {
    Class,
    Intreface,
    Base,
    Atgtribute,
    Method,
}

impl Default for ClassRecordKind {
    fn default() -> (kind: ClassRecordKind)
        ensures
            kind == ClassRecordKind::Class,
    {
        ClassRecordKind::Class
    }
}

/// One indexed declaration: a class or a method.
#[derive(Debug)]
pub struct ClassRecord {
    /// Given by the index when the record is first saved.
    pub id: u32,
    pub fqn: String,
    pub description: String,
    pub attributes: Option<String>,
    pub parameters: Option<String>,
    pub return_type: Option<String>,
    pub location: Location,
}

/// A record, its texts as sequences of characters.
pub struct ClassRecordView {
    pub id: u32,
    pub fqn: Seq<char>,
    pub description: Seq<char>,
    pub attributes: Option<Seq<char>>,
    pub parameters: Option<Seq<char>>,
    pub return_type: Option<Seq<char>>,
    pub location: LocationView,
}

impl View for ClassRecord {
    type V = ClassRecordView;

    open spec fn view(&self) -> ClassRecordView {
        ClassRecordView {
            id: self.id,
            fqn: self.fqn@,
            description: self.description@,
            attributes: opt_text(self.attributes),
            parameters: opt_text(self.parameters),
            return_type: opt_text(self.return_type),
            location: self.location@,
        }
    }
}

/// A copy of an optional string.
pub fn clone_text(text: &Option<String>) -> (copy: Option<String>)
    ensures
        opt_text(copy) == opt_text(*text),
{
    match text {
        Some(s) => Some(s.clone()),
        None => None,
    }
}

impl Clone for ClassRecord {
    fn clone(&self) -> (copy: ClassRecord)
        ensures
            copy@ == self@,
    {
        ClassRecord {
            id: self.id,
            fqn: self.fqn.clone(),
            description: self.description.clone(),
            attributes: clone_text(&self.attributes),
            parameters: clone_text(&self.parameters),
            return_type: clone_text(&self.return_type),
            location: self.location.clone(),
        }
    }
}

/// The views of a list of records.
pub open spec fn records_view(rows: Seq<ClassRecord>) -> Seq<ClassRecordView> {
    Seq::new(rows.len(), |i: int| rows[i]@)
}

/// Whether a record is the one for this name in this document.
pub open spec fn has_key(row: ClassRecordView, fqn: Seq<char>, uri: Seq<char>) -> bool {
    row.fqn == fqn && row.location.uri == uri
}

/// No two rows are for the same name in the same document.
pub open spec fn keys_unique(rows: Seq<ClassRecordView>) -> bool {
    forall|i: int, j: int|
        0 <= i < j < rows.len() ==> !has_key(
            #[trigger] rows[i],
            (#[trigger] rows[j]).fqn,
            rows[j].location.uri,
        )
}

/// Index of the first row with this key, or the number of rows where there is none.
pub open spec fn key_position(rows: Seq<ClassRecordView>, fqn: Seq<char>, uri: Seq<char>) -> nat
    decreases rows.len(),
{
    if rows.len() > 0 && !has_key(rows[0], fqn, uri) {
        1 + key_position(rows.drop_first(), fqn, uri)
    } else {
        0
    }
}

/// The greatest id among the rows, 0 where there are none.
pub open spec fn max_id(rows: Seq<ClassRecordView>) -> nat
    decreases rows.len(),
{
    if rows.len() == 0 {
        0
    } else if rows.last().id > max_id(rows.drop_last()) {
        rows.last().id as nat
    } else {
        max_id(rows.drop_last())
    }
}

/// The row that takes the place of `row` when `record` is saved over it:
/// the place in the document is the record's, all else stays.
pub open spec fn moved(row: ClassRecordView, record: ClassRecordView) -> ClassRecordView {
    ClassRecordView {
        location: LocationView { uri: row.location.uri, range: record.location.range },
        ..row
    }
}

/// The record as it is stored when it is new to the rows.
pub open spec fn stored(rows: Seq<ClassRecordView>, record: ClassRecordView) -> ClassRecordView {
    ClassRecordView { id: (max_id(rows) + 1) as u32, ..record }
}

/// The rows after `record` is saved: the row with its name and document moves
/// to the record's place; where there is none, the record joins the rows
/// under the next id.
pub open spec fn upsert(rows: Seq<ClassRecordView>, record: ClassRecordView) -> Seq<
    ClassRecordView,
> {
    let k = key_position(rows, record.fqn, record.location.uri) as int;
    if k < rows.len() {
        rows.update(k, moved(rows[k], record))
    } else {
        rows.push(stored(rows, record))
    }
}

/// Whether saving `record` fails: it is new and no id is left for it.
pub open spec fn out_of_ids(rows: Seq<ClassRecordView>, record: ClassRecordView) -> bool {
    key_position(rows, record.fqn, record.location.uri) == rows.len() && max_id(rows) >= u32::MAX
}

/// The rows with this name, in the order of the index.
pub open spec fn rows_named(rows: Seq<ClassRecordView>, fqn: Seq<char>) -> Seq<ClassRecordView> {
    rows.filter(|row: ClassRecordView| row.fqn == fqn)
}

/// The rows after the records are saved one after the other; a record for
/// which no id is left changes nothing.
pub open spec fn save_all(rows: Seq<ClassRecordView>, records: Seq<ClassRecordView>) -> Seq<
    ClassRecordView,
>
    decreases records.len(),
{
    if records.len() == 0 {
        rows
    } else {
        let before = save_all(rows, records.drop_last());
        if out_of_ids(before, records.last()) {
            before
        } else {
            upsert(before, records.last())
        }
    }
}

/// How many of the records, saved one after the other, find no id left.
pub open spec fn failed_saves(rows: Seq<ClassRecordView>, records: Seq<ClassRecordView>) -> nat
    decreases records.len(),
{
    if records.len() == 0 {
        0
    } else {
        let before = save_all(rows, records.drop_last());
        let failed = failed_saves(rows, records.drop_last());
        if out_of_ids(before, records.last()) {
            failed + 1
        } else {
            failed
        }
    }
}

/// The rows of an index after it is emptied: none, whatever it held.
pub open spec fn cleaned(rows: Seq<ClassRecordView>) -> Seq<ClassRecordView> {
    Seq::empty()
}

/// The rows with this name in this document.
pub open spec fn rows_keyed(rows: Seq<ClassRecordView>, fqn: Seq<char>, uri: Seq<char>) -> Seq<
    ClassRecordView,
> {
    rows.filter(|row: ClassRecordView| has_key(row, fqn, uri))
}

/// The rows whose name matches this pattern, in the order of the index.
pub open spec fn rows_like(rows: Seq<ClassRecordView>, pattern: Seq<char>) -> Seq<
    ClassRecordView,
> {
    rows.filter(|row: ClassRecordView| like(pattern, row.fqn))
}

/// The rows of this document that begin on or before the first line of a
/// location and end on or after its last line.
pub open spec fn rows_around(rows: Seq<ClassRecordView>, location: LocationView) -> Seq<
    ClassRecordView,
> {
    rows.filter(
        |row: ClassRecordView|
            row.location.uri == location.uri && row.location.range.start.line
                <= location.range.start.line && row.location.range.end.line
                >= location.range.end.line,
    )
}

/// The first of the rows found, or that there is none.
pub open spec fn first_row(found: Seq<ClassRecordView>) -> Result<ClassRecordView, IndexError> {
    if found.len() > 0 {
        Ok(found[0])
    } else {
        Err(IndexError::RowNotFound)
    }
}

/// The view of a record or of the error in its place.
pub open spec fn row_view(row: Result<ClassRecord, IndexError>) -> Result<
    ClassRecordView,
    IndexError,
> {
    match row {
        Ok(record) => Ok(record@),
        Err(e) => Err(e),
    }
}

/// What saving `record` answers where it succeeds.
pub open spec fn save_outcome(rows: Seq<ClassRecordView>, record: ClassRecordView) -> Saved {
    let k = key_position(rows, record.fqn, record.location.uri) as int;
    if k < rows.len() {
        Saved::Updated(rows[k].id)
    } else {
        Saved::Inserted((max_id(rows) + 1) as u32)
    }
}

/// What a save did.
#[derive(Debug, Clone, Copy, PartialEq, Eq, Structural)]
pub enum Saved {
    /// A new row, under this id.
    Inserted(u32),
    /// The row with this id moved to the record's place.
    Updated(u32),
}

/// Why the index could not answer.
#[derive(Debug, Clone, Copy, PartialEq, Eq, Structural)]
pub enum IndexError {
    /// No row is as asked.
    RowNotFound,
    /// No id is left for a new row.
    OutOfIds,
    /// Two rows are for the same name in the same document.
    DuplicateKey,
}

/// The records of a project, at most one for a name in a document.
pub struct SymbolIndex {
    rows: Vec<ClassRecord>,
}

impl View for SymbolIndex {
    type V = Seq<ClassRecordView>;

    closed spec fn view(&self) -> Seq<ClassRecordView> {
        records_view(self.rows@)
    }
}

/// The key position is the index of the first row with the key.
pub proof fn lemma_key_position(rows: Seq<ClassRecordView>, fqn: Seq<char>, uri: Seq<char>)
    ensures
        key_position(rows, fqn, uri) <= rows.len(),
        forall|i: int| 0 <= i < key_position(rows, fqn, uri) ==> !has_key(#[trigger] rows[i], fqn, uri),
        key_position(rows, fqn, uri) < rows.len() ==> has_key(
            rows[key_position(rows, fqn, uri) as int],
            fqn,
            uri,
        ),
    decreases rows.len(),
{
    if rows.len() > 0 && !has_key(rows[0], fqn, uri) {
        let rest = rows.drop_first();
        lemma_key_position(rest, fqn, uri);
        assert forall|i: int| 0 <= i < key_position(rows, fqn, uri) implies !has_key(
            #[trigger] rows[i],
            fqn,
            uri,
        ) by {
            if i > 0 {
                assert(rows[i] == rest[i - 1]);
            }
        }
        if key_position(rows, fqn, uri) < rows.len() {
            assert(rows[key_position(rows, fqn, uri) as int] == rest[key_position(rest, fqn, uri) as int]);
        }
    }
}

/// An index with the key, before which no row has it, is the key position.
pub proof fn lemma_key_position_is(
    rows: Seq<ClassRecordView>,
    fqn: Seq<char>,
    uri: Seq<char>,
    k: int,
)
    requires
        0 <= k <= rows.len(),
        forall|i: int| 0 <= i < k ==> !has_key(#[trigger] rows[i], fqn, uri),
        k < rows.len() ==> has_key(rows[k], fqn, uri),
    ensures
        key_position(rows, fqn, uri) == k,
{
    lemma_key_position(rows, fqn, uri);
}

/// The first row that is wanted is the first of the wanted rows.
pub proof fn lemma_filter_first(
    rows: Seq<ClassRecordView>,
    wanted: spec_fn(ClassRecordView) -> bool,
    k: int,
)
    requires
        0 <= k < rows.len(),
        wanted(rows[k]),
        rows.take(k).filter(wanted).len() == 0,
    ensures
        rows.filter(wanted).len() > 0,
        rows.filter(wanted)[0] == rows[k],
    decreases rows.len(),
{
    reveal(Seq::filter);
    let init = rows.drop_last();
    if k == rows.len() - 1 {
        assert(init == rows.take(k));
    } else {
        assert(init.take(k) == rows.take(k));
        lemma_filter_first(init, wanted, k);
    }
}

/// No row has an id above the greatest.
pub proof fn lemma_max_id(rows: Seq<ClassRecordView>)
    ensures
        forall|i: int| 0 <= i < rows.len() ==> (#[trigger] rows[i]).id <= max_id(rows),
        max_id(rows) <= u32::MAX,
    decreases rows.len(),
{
    if rows.len() > 0 {
        lemma_max_id(rows.drop_last());
        assert forall|i: int| 0 <= i < rows.len() implies (#[trigger] rows[i]).id <= max_id(rows) by {
            if i < rows.len() - 1 {
                assert(rows[i] == rows.drop_last()[i]);
            }
        }
    }
}

/// Saving keeps the keys apart.
pub proof fn lemma_upsert_keeps_keys_unique(rows: Seq<ClassRecordView>, record: ClassRecordView)
    requires
        keys_unique(rows),
    ensures
        keys_unique(upsert(rows, record)),
{
    lemma_key_position(rows, record.fqn, record.location.uri);
    let k = key_position(rows, record.fqn, record.location.uri) as int;
    let after = upsert(rows, record);
    assert forall|i: int, j: int| 0 <= i < j < after.len() implies !has_key(
        #[trigger] after[i],
        (#[trigger] after[j]).fqn,
        after[j].location.uri,
    ) by {
        if k < rows.len() {
            assert(after[i].fqn == rows[i].fqn && after[i].location.uri == rows[i].location.uri);
            assert(after[j].fqn == rows[j].fqn && after[j].location.uri == rows[j].location.uri);
            assert(!has_key(rows[i], rows[j].fqn, rows[j].location.uri));
        } else if j < rows.len() {
            assert(!has_key(rows[i], rows[j].fqn, rows[j].location.uri));
        } else {
            assert(!has_key(rows[i], record.fqn, record.location.uri));
        }
    }
}

impl SymbolIndex {
    /// No two records of the index are for the same name in the same
    /// document. Every function that makes or changes an index sees to it.
    pub open spec fn wf(&self) -> bool {
        keys_unique(self@)
    }

    /// An index without records.
    pub fn new() -> (index: SymbolIndex)
        ensures
            index@ == Seq::<ClassRecordView>::empty(),
            index.wf(),
    {
        let index = SymbolIndex { rows: Vec::new() };
        assert(index@ == Seq::<ClassRecordView>::empty());
        index
    }

    /// An index of the given rows, each under the id it comes with. Fails
    /// where two of the rows are for the same name in the same document.
    pub fn from_rows(rows: Vec<ClassRecord>) -> (result: Result<SymbolIndex, IndexError>)
        ensures
            result is Ok <==> keys_unique(records_view(rows@)),
            match result {
                Ok(index) => index@ == records_view(rows@) && index.wf(),
                Err(e) => e == IndexError::DuplicateKey,
            },
    {
        let ghost all = records_view(rows@);
        let n = rows.len();
        let mut i: usize = 0;
        while i < n
            invariant
                i <= n,
                n == rows.len(),
                all == records_view(rows@),
                forall|a: int, b: int|
                    0 <= a < i && a < b < n ==> !has_key(
                        #[trigger] all[a],
                        (#[trigger] all[b]).fqn,
                        all[b].location.uri,
                    ),
            decreases n - i,
        {
            let mut j: usize = i + 1;
            while j < n
                invariant
                    i < j <= n,
                    n == rows.len(),
                    all == records_view(rows@),
                    forall|b: int|
                        i < b < j ==> !has_key(all[i as int], (#[trigger] all[b]).fqn, all[b].location.uri),
                decreases n - j,
            {
                if rows[i].fqn == rows[j].fqn && rows[i].location.uri == rows[j].location.uri {
                    assert(has_key(all[i as int], all[j as int].fqn, all[j as int].location.uri));
                    return Err(IndexError::DuplicateKey);
                }
                j += 1;
            }
            i += 1;
        }
        Ok(SymbolIndex { rows })
    }

    /// Number of records.
    pub fn len(&self) -> (n: usize)
        ensures
            n == self@.len(),
    {
        self.rows.len()
    }

    /// Removes every record.
    pub fn clean_index(&mut self)
        ensures
            final(self)@ == cleaned(old(self)@),
            final(self).wf(),
    {
        self.rows = Vec::new();
        assert(self@ == Seq::<ClassRecordView>::empty());
    }

    /// Saves a record: the row with its name and document moves to the
    /// record's place; where there is none, the record joins the index under
    /// the next id. Fails, and leaves the index as it is, only where the
    /// record is new and no id is left.
    pub fn save_row(&mut self, record: &ClassRecord) -> (result: Result<Saved, IndexError>)
        ensures
            old(self).wf() ==> final(self).wf(),
            result is Err <==> out_of_ids(old(self)@, record@),
            result is Err ==> result == Err::<Saved, IndexError>(IndexError::OutOfIds)
                && final(self)@ == old(self)@,
            result is Ok ==> result == Ok::<Saved, IndexError>(
                save_outcome(old(self)@, record@),
            ) && final(self)@ == upsert(old(self)@, record@),
    {
        proof {
            if self.wf() {
                lemma_upsert_keeps_keys_unique(self@, record@);
            }
        }
        let ghost rows = self@;
        let mut top: u32 = 0;
        let mut i: usize = 0;
        while i < self.rows.len()
            invariant
                i <= self.rows.len(),
                self@ == rows,
                rows == old(self)@,
                rows.len() == self.rows.len(),
                keys_unique(rows) ==> keys_unique(upsert(rows, record@)),
                forall|j: int| 0 <= j < i ==> !has_key(#[trigger] rows[j], record@.fqn, record@.location.uri),
                top == max_id(rows.take(i as int)),
            decreases self.rows.len() - i,
        {
            assert(rows[i as int] == self.rows@[i as int]@);
            if self.rows[i].fqn == record.fqn && self.rows[i].location.uri == record.location.uri {
                proof {
                    lemma_key_position_is(rows, record@.fqn, record@.location.uri, i as int);
                }
                let id = self.rows[i].id;
                let mut row = self.rows[i].clone();
                row.location.range = record.location.range;
                assert(row@ == moved(rows[i as int], record@));
                self.rows.set(i, row);
                assert(self@ =~= upsert(rows, record@));
                return Ok(Saved::Updated(id));
            }
            assert(rows.take(i + 1).drop_last() == rows.take(i as int));
            if self.rows[i].id > top {
                top = self.rows[i].id;
            }
            i += 1;
        }
        proof {
            assert(rows.take(i as int) == rows);
            lemma_key_position_is(rows, record@.fqn, record@.location.uri, rows.len() as int);
        }
        if top == u32::MAX {
            return Err(IndexError::OutOfIds);
        }
        let mut row = record.clone();
        row.id = top + 1;
        assert(row@ == stored(rows, record@));
        self.rows.push(row);
        assert(self@ =~= upsert(rows, record@));
        Ok(Saved::Inserted(top + 1))
    }

    /// Saves the records one after the other and goes on where one fails.
    /// Returns how many failed.
    pub fn save_rows(&mut self, records: &Vec<ClassRecord>) -> (failed: usize)
        ensures
            old(self).wf() ==> final(self).wf(),
            final(self)@ == save_all(old(self)@, records_view(records@)),
            failed == failed_saves(old(self)@, records_view(records@)),
    {
        let ghost all = records_view(records@);
        let mut failed: usize = 0;
        let mut i: usize = 0;
        while i < records.len()
            invariant
                i <= records.len(),
                failed <= i,
                all == records_view(records@),
                old(self).wf() ==> self.wf(),
                self@ == save_all(old(self)@, all.take(i as int)),
                failed == failed_saves(old(self)@, all.take(i as int)),
            decreases records.len() - i,
        {
            proof {
                assert(all.take(i + 1).drop_last() == all.take(i as int));
                assert(all.take(i + 1).last() == records@[i as int]@);
            }
            if self.save_row(&records[i]).is_err() {
                failed += 1;
            }
            i += 1;
        }
        assert(all.take(records.len() as int) == all);
        failed
    }

    /// The records with this name, in the order of the index.
    pub fn find_by_fqn(&self, name: &str) -> (found: Vec<ClassRecord>)
        ensures
            records_view(found@) == rows_named(self@, name@),
    {
        let ghost wanted = |row: ClassRecordView| row.fqn == name@;
        let name = String::from_str(name);
        let mut found: Vec<ClassRecord> = Vec::new();
        let mut i: usize = 0;
        assert(self@.take(0).filter(wanted) =~= Seq::<ClassRecordView>::empty());
        while i < self.rows.len()
            invariant
                i <= self.rows.len(),
                wanted == |row: ClassRecordView| row.fqn == name@,
                records_view(found@) == self@.take(i as int).filter(wanted),
            decreases self.rows.len() - i,
        {
            proof {
                reveal(Seq::filter);
                assert(self@.take(i + 1).drop_last() == self@.take(i as int));
                assert(self@.take(i + 1).last() == self.rows@[i as int]@);
            }
            if self.rows[i].fqn == name {
                let ghost before = records_view(found@);
                let copy = self.rows[i].clone();
                found.push(copy);
                assert(records_view(found@) =~= before.push(copy@));
            }
            i += 1;
        }
        assert(self@.take(self.rows.len() as int) == self@);
        found
    }

    /// The first record with this name.
    pub fn find_one_by_fqn(&self, name: &str) -> (found: Result<ClassRecord, IndexError>)
        ensures
            row_view(found) == first_row(rows_named(self@, name@)),
    {
        let all = self.find_by_fqn(name);
        if all.len() > 0 {
            Ok(all[0].clone())
        } else {
            Err(IndexError::RowNotFound)
        }
    }

    /// The records whose name matches this pattern, in the order of the index.
    pub fn find_by_fqn_like(&self, pattern: &str) -> (found: Vec<ClassRecord>)
        ensures
            records_view(found@) == rows_like(self@, pattern@),
    {
        let ghost wanted = |row: ClassRecordView| like(pattern@, row.fqn);
        let mut found: Vec<ClassRecord> = Vec::new();
        let mut i: usize = 0;
        assert(self@.take(0).filter(wanted) =~= Seq::<ClassRecordView>::empty());
        while i < self.rows.len()
            invariant
                i <= self.rows.len(),
                wanted == |row: ClassRecordView| like(pattern@, row.fqn),
                records_view(found@) == self@.take(i as int).filter(wanted),
            decreases self.rows.len() - i,
        {
            proof {
                reveal(Seq::filter);
                assert(self@.take(i + 1).drop_last() == self@.take(i as int));
                assert(self@.take(i + 1).last() == self.rows@[i as int]@);
            }
            if like_matches(pattern, self.rows[i].fqn.as_str()) {
                let ghost before = records_view(found@);
                let copy = self.rows[i].clone();
                found.push(copy);
                assert(records_view(found@) =~= before.push(copy@));
            }
            i += 1;
        }
        assert(self@.take(self.rows.len() as int) == self@);
        found
    }

    /// The first record whose name matches this pattern.
    pub fn find_one_by_fqn_like(&self, pattern: &str) -> (found: Result<ClassRecord, IndexError>)
        ensures
            row_view(found) == first_row(rows_like(self@, pattern@)),
    {
        let all = self.find_by_fqn_like(pattern);
        if all.len() > 0 {
            Ok(all[0].clone())
        } else {
            Err(IndexError::RowNotFound)
        }
    }

    /// The first record of the location's document whose lines enclose
    /// those of the location: for the place of a method, its class.
    pub fn get_class_by_method_location(&self, location: &Location) -> (found: Result<
        ClassRecord,
        IndexError,
    >)
        ensures
            row_view(found) == first_row(rows_around(self@, location@)),
    {
        let ghost wanted = |row: ClassRecordView|
            row.location.uri == location@.uri && row.location.range.start.line
                <= location@.range.start.line && row.location.range.end.line
                >= location@.range.end.line;
        let mut i: usize = 0;
        assert(self@.take(0).filter(wanted) =~= Seq::<ClassRecordView>::empty());
        while i < self.rows.len()
            invariant
                i <= self.rows.len(),
                wanted == |row: ClassRecordView|
                    row.location.uri == location@.uri && row.location.range.start.line
                        <= location@.range.start.line && row.location.range.end.line
                        >= location@.range.end.line,
                self@.take(i as int).filter(wanted).len() == 0,
            decreases self.rows.len() - i,
        {
            proof {
                reveal(Seq::filter);
                assert(self@.take(i + 1).drop_last() == self@.take(i as int));
                assert(self@.take(i + 1).last() == self.rows@[i as int]@);
            }
            let row = &self.rows[i];
            if row.location.uri == location.uri && row.location.range.start.line
                <= location.range.start.line && row.location.range.end.line
                >= location.range.end.line {
                proof {
                    lemma_filter_first(self@, wanted, i as int);
                }
                return Ok(row.clone());
            }
            i += 1;
        }
        assert(self@.take(self.rows.len() as int) == self@);
        Err(IndexError::RowNotFound)
    }

    /// All records, in the order of the index.
    pub fn get_all(&self) -> (all: Vec<ClassRecord>)
        ensures
            records_view(all@) == self@,
    {
        let mut all: Vec<ClassRecord> = Vec::new();
        let mut i: usize = 0;
        while i < self.rows.len()
            invariant
                i <= self.rows.len(),
                records_view(all@) == self@.take(i as int),
            decreases self.rows.len() - i,
        {
            let ghost before = records_view(all@);
            let copy = self.rows[i].clone();
            all.push(copy);
            assert(records_view(all@) =~= before.push(copy@));
            assert(self@.take(i + 1) =~= self@.take(i as int).push(self@[i as int]));
            i += 1;
        }
        assert(self@.take(self.rows.len() as int) == self@);
        all
    }
}

impl Index for SymbolIndex {
    type Record = ClassRecord;

    type Err = IndexError;

    type SaveResult = Saved;

    /// Saves a record as `save_row` does.
    fn save(&mut self, row: &ClassRecord) -> (result: Result<Saved, IndexError>)
        ensures
            old(self).wf() ==> final(self).wf(),
            result is Err <==> out_of_ids(old(self)@, row@),
            result is Err ==> result == Err::<Saved, IndexError>(IndexError::OutOfIds)
                && final(self)@ == old(self)@,
            result is Ok ==> result == Ok::<Saved, IndexError>(save_outcome(old(self)@, row@))
                && final(self)@ == upsert(old(self)@, row@),
    {
        self.save_row(row)
    }
}

} // verus!
