use crate::db::SymbolIndex;
use crate::syntax::QueryError;
use vstd::prelude::*;

verus! {

/// A store that records can be saved into.
pub trait Index {
    type Record;

    type Err;

    type SaveResult;

    fn save(&mut self, row: &Self::Record) -> Result<Self::SaveResult, Self::Err>;
}

/// What going through a document came to.
#[derive(Debug, Clone, Copy, PartialEq, Eq, Structural)]
pub struct Indexed {
    /// Number of declarations found.
    pub records: usize,
    /// How many of them the index did not take.
    pub failed: usize,
}

/// A stage that finds declarations in a document and saves them.
pub trait Indexer {
    fn index(&self, index: &mut SymbolIndex, document: &[u8], url: &str) -> (result: Result<
        Indexed,
        QueryError,
    >)
        ensures
            old(index).wf() ==> final(index).wf(),
    ;
}

/// A document that can be read as bytes.
pub trait TextDocument {
    fn as_bytes(&self) -> &[u8];
}

impl TextDocument for &[u8] {
    fn as_bytes(&self) -> (bytes: &[u8])
        ensures
            bytes@ == self@,
    {
        self
    }
}

} // verus!
