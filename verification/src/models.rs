//! Request and response values of the search service.
//!
//! These are plain data: the fields are public and carry no invariant. What a
//! request must satisfy is checked where it is used.

use std::collections::HashMap;
use vstd::prelude::*;

verus! {

/// `serde_json::Value`. Nothing is known of a value of it.
#[verifier::external_type_specification]
#[verifier::external_body]
pub struct ExJsonValue(serde_json::Value);

/// A point in time as seconds and nanoseconds since the Unix epoch, in UTC.
#[derive(Debug, Clone, Copy, PartialEq, Eq)]
pub struct Timestamp {
    pub seconds: i64,
    pub nanos: u32,
}

/// A document handed in for indexing.
#[derive(Debug, Clone)]
pub struct IndexDocumentInput {
    /// Identifier chosen by the client. A fresh UUID is minted when absent.
    pub id: Option<String>,
    pub title: String,
    pub body: String,
    pub metadata: DocumentMetadata,
}

/// What a client may say about a document besides its text.
#[derive(Debug, Clone, Default)]
pub struct DocumentMetadata {
    pub tags: Vec<String>,
    pub source: Option<String>,
    /// Stamped with the current time at indexing when absent.
    pub created_at: Option<Timestamp>,
    /// Further key/value pairs. They are accepted and not indexed.
    pub custom: HashMap<String, serde_json::Value>,
}

/// Answer to a successful upsert.
#[derive(Debug, Clone)]
pub struct IndexDocumentResponse {
    pub id: String,
    pub status: String,
    pub message: String,
}

/// Request to delete one document.
#[derive(Debug, Clone)]
pub struct DeleteDocumentInput {
    pub id: String,
}

/// Answer to a successful delete.
#[derive(Debug, Clone)]
pub struct DeleteDocumentResponse {
    pub id: String,
    pub status: String,
    pub message: String,
}

/// A full-text query with its page.
#[derive(Debug, Clone)]
pub struct SearchQuery {
    pub query: String,
    pub limit: usize,
    pub offset: usize,
    pub filters: SearchFilters,
}

/// Filters a search request may carry. They are accepted and not applied.
#[derive(Debug, Clone, Default)]
pub struct SearchFilters {
    pub tags: Vec<String>,
    pub source: Option<String>,
}

/// One hit of a search.
#[derive(Debug, Clone)]
pub struct SearchResult {
    pub id: String,
    pub title: String,
    pub body: String,
    /// The relevance score as the bit pattern of an IEEE-754 single.
    pub score_bits: u32,
    pub created_at: Option<String>,
    /// Reserved for highlighted excerpts; always absent.
    pub snippet: Option<String>,
}

/// Answer to a search.
#[derive(Debug, Clone)]
pub struct SearchResponse {
    pub results: Vec<SearchResult>,
    /// The number of results in this page, not of all matches.
    pub total: usize,
    pub query: String,
    pub took_ms: u64,
}

/// Answer of the health probe.
#[derive(Debug, Clone)]
pub struct HealthResponse {
    pub status: String,
    pub version: Option<String>,
}

/// A page of a tenant's documents, without a query.
#[derive(Debug, Clone)]
pub struct BrowseDocumentsQuery {
    pub limit: usize,
    pub offset: usize,
}

/// One document of a browse page.
#[derive(Debug, Clone)]
pub struct DocumentDetail {
    pub id: String,
    pub title: String,
    pub body: String,
    pub created_at: Option<String>,
    pub tags: Vec<String>,
}

/// Answer to a browse request.
#[derive(Debug, Clone)]
pub struct BrowseDocumentsResponse {
    pub documents: Vec<DocumentDetail>,
    /// The number of documents in this page.
    pub total: usize,
    pub took_ms: u64,
}

/// Largest page a search may ask for.
pub const MAX_SEARCH_LIMIT: usize = 100;

/// Largest page a browse request may ask for.
pub const MAX_BROWSE_LIMIT: usize = 1000;

/// Page size of a search request that names none.
pub fn default_limit() -> (limit: usize)
    ensures
        limit == 10,
        1 <= limit <= MAX_SEARCH_LIMIT,
{
    10
}

/// Page size of a browse request that names none.
pub fn default_browse_limit() -> (limit: usize)
    ensures
        limit == 50,
        1 <= limit <= MAX_BROWSE_LIMIT,
{
    50
}

} // verus!
