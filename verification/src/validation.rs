//! The rules a request must meet before the index is touched.

use crate::clock::{can_write, has_text};
use crate::error::AppError;
use crate::models::{
    BrowseDocumentsQuery, IndexDocumentInput, SearchQuery, MAX_BROWSE_LIMIT, MAX_SEARCH_LIMIT,
};
use crate::text::{blank, is_blank};
use vstd::prelude::*;
use vstd::string::StringExecFns;

verus! {

/// Whether a document comes with a time that cannot be written out.
pub open spec fn time_fault(input: IndexDocumentInput) -> bool {
    input.metadata.created_at matches Some(at) && !has_text(at)
}

/// What is wrong with a document to index, if anything: a title, else a
/// body, that holds nothing but white space, else a time that cannot be
/// written out.
pub open spec fn document_fault(input: IndexDocumentInput) -> Option<Seq<char>> {
    if blank(input.title@) {
        Some("Title cannot be empty"@)
    } else if blank(input.body@) {
        Some("Body cannot be empty"@)
    } else if time_fault(input) {
        Some("created_at is out of range"@)
    } else {
        None
    }
}

/// What is wrong with the identifier of a document to delete, if anything.
pub open spec fn delete_fault(id: Seq<char>) -> Option<Seq<char>> {
    if blank(id) {
        Some("Document ID cannot be empty"@)
    } else {
        None
    }
}

/// What is wrong with a page size, if anything: it is 0, or above `most`.
pub open spec fn limit_fault(limit: usize, most: usize, too_large: Seq<char>) -> Option<Seq<char>> {
    if limit == 0 {
        Some("Limit must be greater than 0"@)
    } else if limit > most {
        Some(too_large)
    } else {
        None
    }
}

/// What is wrong with a search request, if anything: a blank query, else a
/// page size outside 1 to 100.
pub open spec fn search_fault(query: SearchQuery) -> Option<Seq<char>> {
    if blank(query.query@) {
        Some("Query cannot be empty"@)
    } else {
        limit_fault(query.limit, MAX_SEARCH_LIMIT, "Limit cannot exceed 100"@)
    }
}

/// What is wrong with a browse request, if anything: a page size outside 1
/// to 1000.
pub open spec fn browse_fault(query: BrowseDocumentsQuery) -> Option<Seq<char>> {
    limit_fault(query.limit, MAX_BROWSE_LIMIT, "Limit cannot exceed 1000"@)
}

/// Whether a check came out as the fault says: passed where there is none,
/// else failed with a validation error that carries the fault's text.
pub open spec fn judged(outcome: Result<(), AppError>, fault: Option<Seq<char>>) -> bool {
    match fault {
        None => outcome is Ok,
        Some(text) => outcome matches Err(AppError::Validation(message)) && message@ == text,
    }
}

/// Whether an error is the validation error of a fault.
pub open spec fn rejects(error: AppError, fault: Option<Seq<char>>) -> bool {
    fault matches Some(text) && error matches AppError::Validation(message) && message@ == text
}

fn invalid(message: &str) -> (outcome: Result<(), AppError>)
    ensures
        outcome matches Err(AppError::Validation(m)) && m@ == message@,
{
    Err(AppError::Validation(String::from_str(message)))
}

/// Checks a document to index.
pub fn validate_document(input: &IndexDocumentInput) -> (outcome: Result<(), AppError>)
    ensures
        judged(outcome, document_fault(*input)),
{
    if is_blank(input.title.as_str()) {
        invalid("Title cannot be empty")
    } else if is_blank(input.body.as_str()) {
        invalid("Body cannot be empty")
    } else {
        match &input.metadata.created_at {
            Some(at) => if can_write(at) {
                Ok(())
            } else {
                invalid("created_at is out of range")
            },
            None => Ok(()),
        }
    }
}

/// Checks the identifier of a document to delete.
pub fn validate_delete(id: &str) -> (outcome: Result<(), AppError>)
    ensures
        judged(outcome, delete_fault(id@)),
{
    if is_blank(id) {
        invalid("Document ID cannot be empty")
    } else {
        Ok(())
    }
}

/// Checks a search request.
pub fn validate_search(query: &SearchQuery) -> (outcome: Result<(), AppError>)
    ensures
        judged(outcome, search_fault(*query)),
{
    if is_blank(query.query.as_str()) {
        invalid("Query cannot be empty")
    } else if query.limit == 0 {
        invalid("Limit must be greater than 0")
    } else if query.limit > MAX_SEARCH_LIMIT {
        invalid("Limit cannot exceed 100")
    } else {
        Ok(())
    }
}

/// Checks a browse request.
pub fn validate_browse(query: &BrowseDocumentsQuery) -> (outcome: Result<(), AppError>)
    ensures
        judged(outcome, browse_fault(*query)),
{
    if query.limit == 0 {
        invalid("Limit must be greater than 0")
    } else if query.limit > MAX_BROWSE_LIMIT {
        invalid("Limit cannot exceed 1000")
    } else {
        Ok(())
    }
}

} // verus!
