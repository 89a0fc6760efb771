//! Plain request and response shapes of the document operations.

use vstd::prelude::*;

verus! {

/// An add-document request: the raw JSON payload and whether to commit once
/// the document is enqueued.
pub struct AddDocReq {
    pub doc: String,
    pub commit: bool,
}

/// A delete-by-term request: the schema field, the textual term value, and
/// whether to commit once the deletion is enqueued.
pub struct DeleteByTermReq {
    pub field: String,
    pub term: String,
    pub commit: bool,
}

/// A search request: the query text, the page size and the page offset.
pub struct SearchReq {
    pub query: String,
    pub limit: usize,
    pub offset: usize,
}

/// Options of the add-document API call.
pub struct AddDocOptions {
    pub commit: bool,
}

/// One search hit.  The relevance score is carried as the bit pattern of the
/// engine's 32-bit float, so that the core stays float-free; the application
/// turns it back into a number at the boundary.
pub struct ScoredDocument {
    pub score_bits: u32,
    pub doc: String,
}

/// An ordered page of search hits, best first.
pub struct SearchResp {
    pub docs: Vec<ScoredDocument>,
}

} // verus!
