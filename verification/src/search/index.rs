//! Document index trait.

use vstd::prelude::*;

use crate::search::document::{SearchDocument, SearchError};
use crate::search::query::{SearchHit, SearchQuery};

verus! {

/// Crate version for diagnostics.
pub fn version() -> (r: &'static str)
    ensures
        r@ == "0.1.0"@,
{
    "0.1.0"
}

/// Whether `e` is the error for an empty document id `id`.
pub open spec fn is_empty_id_error(e: SearchError, id: Seq<char>) -> bool {
    &&& e matches SearchError::InvalidId { id: i, message: m }
    &&& e->InvalidId_id@ == id
    &&& e->InvalidId_message@ == "id must not be empty"@
}

/// Rejects an empty document id.
pub fn validate_id(id: &str) -> (r: Result<(), SearchError>)
    ensures
        r is Ok <==> id@.len() > 0,
        r matches Err(e) ==> is_empty_id_error(e, id@),
{
    if id.is_empty() {
        return Err(SearchError::InvalidId { id: id.to_owned(), message: "id must not be empty".to_owned() });
    }
    Ok(())
}

/// Upsert / delete / query surface for searchable documents.
///
/// Adapters own ranking. Applications map domain entities into
/// [`SearchDocument`] and call this trait after writes.
pub trait DocumentIndex {
    /// Inserts or replaces `document` by id; an empty id is rejected.
    fn upsert(&mut self, document: SearchDocument) -> (r: Result<(), SearchError>)
        ensures
            document.spec_id().len() == 0 ==> (r matches Err(e) && is_empty_id_error(e, document.spec_id())),
    ;

    /// Removes `id` when present. Returns `true` when a document was deleted;
    /// an empty id is rejected.
    fn delete(&mut self, id: &str) -> (r: Result<bool, SearchError>)
        ensures
            id@.len() == 0 ==> (r matches Err(e) && is_empty_id_error(e, id@)),
    ;

    /// Ranks documents that match `query`.
    fn query(&mut self, query: &SearchQuery) -> (r: Result<Vec<SearchHit>, SearchError>);

    /// Removes every document.
    fn clear(&mut self) -> (r: Result<(), SearchError>);
}

} // verus!
