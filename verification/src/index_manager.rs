//! The registry of tenants: for each tenant that was seen, one index in a
//! directory of its own. An index is opened when its tenant is first seen
//! and kept from then on. Every operation names its tenant and touches the
//! index of no other.
//!
//! The library makes no directory. The directory of a tenant, which
//! `IndexManager::index_path` names, must exist when the tenant's index is
//! first opened; an operation on a tenant without one gives an error.

use crate::clock::{elapsed_millis, start_timer};
use crate::engine::after_delete;
use crate::error::AppError;
use crate::engine::plain;
use crate::handle::{falling, found_in, listed_in, records_found, upsert_done, IndexHandle};
use crate::paging::rest_len;
use crate::ids::{hyphenated, is_uuid_text, tenant_text, TenantId};
use crate::models::{
    BrowseDocumentsQuery, BrowseDocumentsResponse, DeleteDocumentResponse, IndexDocumentInput,
    IndexDocumentResponse, SearchQuery, SearchResponse,
};
use crate::paging::least;
use crate::schema::{document_numbers, Record};
use crate::validation::{
    browse_fault, delete_fault, document_fault, rejects, search_fault, validate_browse,
    validate_delete, validate_document, validate_search,
};
use std::collections::HashMap;
use vstd::multiset::Multiset;
use vstd::prelude::*;
use vstd::string::StringExecFns;

verus! {

broadcast use vstd::std_specs::hash::group_hash_axioms;

/// The tenants and their indexes, below one base directory.
pub struct IndexManager {
    base_dir: String,
    /// For each tenant that was seen, the place of its index in `handles`.
    slots: HashMap<u128, usize>,
    handles: Vec<IndexHandle>,
}

/// How many documents a tenant has.
#[derive(Debug, Clone, Copy)]
pub struct UserIndexStats {
    pub user_id: TenantId,
    pub num_documents: usize,
}

/// The directory of a tenant's index: `index` in the directory that has
/// the tenant's hyphenated UUID as its name, in the base directory.
pub open spec fn spec_index_path(base: Seq<char>, tenant: TenantId) -> Seq<char> {
    base + "/"@ + hyphenated(tenant) + "/index"@
}

/// Whether an operation on one tenant left all others as they were: the
/// same tenants are known, with the same records.
pub open spec fn kept_apart(before: IndexManager, after: IndexManager, tenant: TenantId) -> bool {
    forall|other: TenantId|
        other != tenant ==> {
            &&& #[trigger] after.has_tenant(other) == before.has_tenant(other)
            &&& before.has_tenant(other) ==> after.documents(other) == before.documents(other)
        }
}

/// Whether a tenant's records are as they were, if the tenant was known.
pub open spec fn kept(before: IndexManager, after: IndexManager, tenant: TenantId) -> bool {
    before.has_tenant(tenant) ==> {
        &&& after.has_tenant(tenant)
        &&& after.documents(tenant) == before.documents(tenant)
    }
}

/// Whether a write to a tenant's index may start from the given records:
/// those of the tenant where it is known; where it is not, the records
/// that its directory holds, which nothing here tells.
pub open spec fn starts_from(manager: IndexManager, tenant: TenantId, before: Multiset<Record>)
    -> bool {
    manager.has_tenant(tenant) ==> before == manager.documents(tenant)
}

/// Whether the records of a tenant are those after the upsert of a request
/// under an identifier.
pub open spec fn upsert_in(
    before: IndexManager,
    after: IndexManager,
    tenant: TenantId,
    input: IndexDocumentInput,
    id: Seq<char>,
) -> bool {
    exists|live: Multiset<Record>| #[trigger]
        starts_from(before, tenant, live) && upsert_done(
            live,
            after.documents(tenant),
            input,
            id,
        )
}

/// Whether the records of a tenant are those after an identifier was
/// deleted.
pub open spec fn delete_in(
    before: IndexManager,
    after: IndexManager,
    tenant: TenantId,
    id: Seq<char>,
) -> bool {
    exists|live: Multiset<Record>| #[trigger]
        starts_from(before, tenant, live) && after.documents(tenant) == after_delete(
            live,
            document_numbers().id,
            id,
        )
}

/// The error of a read that found the tenant's index closed and could not
/// open it: a search error for a search, with the words of the index error.
fn as_search_failure(error: AppError) -> (failure: AppError)
    ensures
        failure is Search,
{
    match error {
        AppError::Index(text) => AppError::Search(
            String::from_str("Search failed: ").concat(text.as_str()),
        ),
        AppError::Internal(text) => AppError::Search(text),
        AppError::BadRequest(text) => AppError::Search(text),
        AppError::NotFound(text) => AppError::Search(text),
        AppError::Validation(text) => AppError::Search(text),
        AppError::Search(text) => AppError::Search(text),
    }
}

/// The same as an internal error, with the words of the index error as its
/// cause.
fn as_internal_failure(error: AppError) -> (failure: AppError)
    ensures
        failure matches AppError::Internal(cause) && cause@ == crate::error::spec_payload(error),
{
    match error {
        AppError::Index(text) => AppError::Internal(text),
        AppError::Internal(text) => AppError::Internal(text),
        AppError::BadRequest(text) => AppError::Internal(text),
        AppError::NotFound(text) => AppError::Internal(text),
        AppError::Validation(text) => AppError::Internal(text),
        AppError::Search(text) => AppError::Internal(text),
    }
}

impl IndexManager {
    /// Whether every known tenant has an index of its own, each with the
    /// schema of the service and kept in the tenant's directory.
    pub closed spec fn wf(&self) -> bool {
        &&& forall|t: TenantId|
            self.slots@.contains_key(t) ==> (#[trigger] self.handles@[self.slots@[t] as int]).location()
                == spec_index_path(self.base_dir@, t)
        &&& forall|t: TenantId|
            self.slots@.contains_key(t) ==> (#[trigger] self.slots@[t]) < self.handles@.len()
        &&& forall|a: TenantId, b: TenantId|
            #![trigger self.slots@[a], self.slots@[b]]
            self.slots@.contains_key(a) && self.slots@.contains_key(b) && a != b
                ==> self.slots@[a] != self.slots@[b]
        &&& forall|i: int| 0 <= i < self.handles@.len() ==> (#[trigger] self.handles@[i]).wf()
    }

    /// The base directory.
    pub closed spec fn base(&self) -> Seq<char> {
        self.base_dir@
    }

    /// Whether the tenant's index is open.
    pub closed spec fn has_tenant(&self, tenant: TenantId) -> bool {
        self.slots@.contains_key(tenant)
    }

    /// The records that the last commit left in the tenant's index.
    pub closed spec fn documents(&self, tenant: TenantId) -> Multiset<Record> {
        self.handles@[self.slots@[tenant] as int].documents()
    }

    /// The directory in which the tenant's index is kept.
    pub closed spec fn directory(&self, tenant: TenantId) -> Seq<char> {
        self.handles@[self.slots@[tenant] as int].location()
    }

    /// The index of every known tenant is kept in the tenant's directory
    /// below the base directory.
    pub proof fn lemma_directory(&self, tenant: TenantId)
        requires
            self.wf(),
            self.has_tenant(tenant),
        ensures
            self.directory(tenant) == spec_index_path(self.base(), tenant),
    {
    }

    /// A manager that knows no tenant yet.
    pub fn new(base_dir: String) -> (manager: IndexManager)
        ensures
            manager.wf(),
            manager.base() == base_dir@,
            forall|t: TenantId| !manager.has_tenant(t),
    {
        IndexManager { base_dir, slots: HashMap::new(), handles: Vec::new() }
    }

    /// The directory of a tenant's index.
    pub fn index_path(&self, user_id: TenantId) -> (path: String)
        ensures
            path@ == spec_index_path(self.base(), user_id),
    {
        let path = self.base_dir.clone();
        path.concat("/").concat(tenant_text(user_id).as_str()).concat("/index")
    }

    /// Whether the tenant's index is open.
    pub fn is_open(&self, user_id: TenantId) -> (open: bool)
        ensures
            open == self.has_tenant(user_id),
    {
        self.slots.contains_key(&user_id)
    }

    /// Finds the place of a tenant's index, and first opens the index
    /// where the tenant is new.
    fn slot_of(&mut self, user_id: TenantId) -> (outcome: Result<usize, AppError>)
        requires
            old(self).wf(),
        ensures
            final(self).wf(),
            final(self).base() == old(self).base(),
            kept_apart(*old(self), *final(self), user_id),
            kept(*old(self), *final(self), user_id),
            old(self).has_tenant(user_id) ==> outcome is Ok && *final(self) == *old(self),
            outcome matches Ok(slot) ==> {
                &&& final(self).has_tenant(user_id)
                &&& slot == final(self).slots@[user_id]
            },
            outcome matches Err(e) ==> e is Index && *final(self) == *old(self),
    {
        match self.slots.get(&user_id) {
            Some(slot) => {
                return Ok(*slot);
            },
            None => {},
        }
        let path = self.index_path(user_id);
        let handle = match IndexHandle::new(path.as_str()) {
            Ok(handle) => handle,
            Err(e) => {
                return Err(e);
            },
        };
        let slot = self.handles.len();
        self.handles.push(handle);
        self.slots.insert(user_id, slot);
        proof {
            assert forall|other: TenantId| other != user_id implies {
                &&& #[trigger] self.has_tenant(other) == old(self).has_tenant(other)
                &&& old(self).has_tenant(other) ==> self.documents(other) == old(self).documents(
                    other,
                )
            } by {
                if old(self).has_tenant(other) {
                    assert(old(self).slots@[other] < old(self).handles@.len());
                    assert(self.slots@[other] == old(self).slots@[other]);
                }
            }
            assert forall|t: TenantId| self.slots@.contains_key(t) implies (
            #[trigger] self.handles@[self.slots@[t] as int]).location() == spec_index_path(
                self.base_dir@,
                t,
            ) by {
                if t != user_id {
                    assert(old(self).slots@[t] < old(self).handles@.len());
                    assert(self.handles@[self.slots@[t] as int] == old(self).handles@[old(
                        self,
                    ).slots@[t] as int]);
                }
            }
            assert forall|a: TenantId, b: TenantId|
                #![trigger self.slots@[a], self.slots@[b]]
                self.slots@.contains_key(a) && self.slots@.contains_key(b) && a != b
                    implies self.slots@[a] != self.slots@[b] by {
                if a != user_id && b != user_id {
                    assert(old(self).slots@[a] != old(self).slots@[b]);
                } else if a == user_id {
                    assert(old(self).slots@[b] < old(self).handles@.len());
                } else {
                    assert(old(self).slots@[a] < old(self).handles@.len());
                }
            }
            assert forall|t: TenantId| self.slots@.contains_key(t) implies (
            #[trigger] self.slots@[t]) < self.handles@.len() by {
                if t != user_id {
                    assert(old(self).slots@[t] < old(self).handles@.len());
                }
            }
            assert forall|i: int| 0 <= i < self.handles@.len() implies (
            #[trigger] self.handles@[i]).wf() by {
                if i < old(self).handles@.len() {
                    assert(self.handles@[i] == old(self).handles@[i]);
                }
            }
        }
        Ok(slot)
    }

    /// Opens the tenant's index if it is not open yet, in the tenant's
    /// directory, which `index_path` gives and which must exist. An index
    /// that is open stays as it is.
    pub fn get_or_create_index(&mut self, user_id: TenantId) -> (outcome: Result<(), AppError>)
        requires
            old(self).wf(),
        ensures
            final(self).wf(),
            final(self).base() == old(self).base(),
            kept_apart(*old(self), *final(self), user_id),
            kept(*old(self), *final(self), user_id),
            old(self).has_tenant(user_id) ==> outcome is Ok && *final(self) == *old(self),
            outcome is Ok ==> final(self).has_tenant(user_id) && final(self).directory(user_id)
                == spec_index_path(final(self).base(), user_id),
            outcome matches Err(e) ==> e is Index && *final(self) == *old(self),
    {
        match self.slot_of(user_id) {
            Ok(_) => Ok(()),
            Err(e) => Err(e),
        }
    }

    /// Where one index changed and the rest did not, every tenant but its
    /// own is as it was.
    proof fn lemma_one_changed(before: IndexManager, after: IndexManager, tenant: TenantId)
        requires
            before.wf(),
            before.has_tenant(tenant),
            after.slots@ == before.slots@,
            after.base_dir == before.base_dir,
            after.handles@.len() == before.handles@.len(),
            forall|i: int|
                0 <= i < before.handles@.len() && i != before.slots@[tenant] ==> after.handles@[i]
                    == before.handles@[i],
            after.handles@[before.slots@[tenant] as int].wf(),
            after.handles@[before.slots@[tenant] as int].location() == before.handles@[before.slots@[tenant] as int].location(),
        ensures
            after.wf(),
            after.base() == before.base(),
            after.has_tenant(tenant),
            kept_apart(before, after, tenant),
    {
        assert forall|other: TenantId| other != tenant implies {
            &&& #[trigger] after.has_tenant(other) == before.has_tenant(other)
            &&& before.has_tenant(other) ==> after.documents(other) == before.documents(other)
        } by {
            if before.has_tenant(other) {
                assert(before.slots@[other] != before.slots@[tenant]);
                assert(before.slots@[other] < before.handles@.len());
            }
        }
        assert forall|t: TenantId| after.slots@.contains_key(t) implies (
        #[trigger] after.handles@[after.slots@[t] as int]).location() == spec_index_path(
            after.base_dir@,
            t,
        ) by {
            assert(before.slots@[t] < before.handles@.len());
            if t != tenant {
                assert(before.slots@[t] != before.slots@[tenant]);
            }
        }
        assert forall|i: int| 0 <= i < after.handles@.len() implies (
        #[trigger] after.handles@[i]).wf() by {
            if i != before.slots@[tenant] {
                assert(after.handles@[i] == before.handles@[i]);
            }
        }
    }

    /// Writes a document into the tenant's index, in place of every record
    /// that the index finds under its identifier. A document without an
    /// identifier gets a fresh UUID. A document with a blank title or body,
    /// or with a time that cannot be written out, is refused before
    /// anything is touched. Where the engine fails, the records of the
    /// tenant are as before.
    pub fn index_document(&mut self, user_id: TenantId, input: IndexDocumentInput) -> (outcome:
        Result<IndexDocumentResponse, AppError>)
        requires
            old(self).wf(),
        ensures
            final(self).wf(),
            final(self).base() == old(self).base(),
            kept_apart(*old(self), *final(self), user_id),
            old(self).has_tenant(user_id) ==> final(self).has_tenant(user_id),
            outcome matches Ok(response) ==> {
                &&& document_fault(input) is None
                &&& final(self).has_tenant(user_id)
                &&& upsert_in(*old(self), *final(self), user_id, input, response.id@)
                &&& match input.id {
                    Some(given) => response.id@ == given@,
                    None => is_uuid_text(response.id@),
                }
                &&& response.status@ == "success"@
                &&& response.message@ == "Document indexed successfully"@
            },
            document_fault(input) is Some ==> outcome is Err,
            outcome is Err ==> kept(*old(self), *final(self), user_id),
            outcome matches Err(e) ==> if document_fault(input) is Some {
                rejects(e, document_fault(input)) && *final(self) == *old(self)
            } else {
                e is Index
            },
    {
        match validate_document(&input) {
            Ok(()) => {},
            Err(e) => {
                return Err(e);
            },
        }
        let slot = match self.slot_of(user_id) {
            Ok(slot) => slot,
            Err(e) => {
                return Err(e);
            },
        };
        let ghost opened = *self;
        let handle = &mut self.handles[slot];
        let ghost live = handle.documents();
        let written = handle.upsert(&input);
        proof {
            Self::lemma_one_changed(opened, *self, user_id);
            assert forall|other: TenantId| other != user_id implies {
                &&& #[trigger] self.has_tenant(other) == old(self).has_tenant(other)
                &&& old(self).has_tenant(other) ==> self.documents(other) == old(self).documents(
                    other,
                )
            } by {
                assert(opened.has_tenant(other) == old(self).has_tenant(other));
                assert(self.has_tenant(other) == opened.has_tenant(other));
            }
        }
        let id = match written {
            Ok(id) => id,
            Err(e) => {
                return Err(e);
            },
        };
        proof {
            assert(starts_from(*old(self), user_id, live));
            assert(upsert_done(live, self.documents(user_id), input, id@));
            assert(upsert_in(*old(self), *self, user_id, input, id@));
        }
        Ok(
            IndexDocumentResponse {
                id,
                status: String::from_str("success"),
                message: String::from_str("Document indexed successfully"),
            },
        )
    }

    /// Deletes from the tenant's index every record that the index finds
    /// under an identifier. To delete an identifier that no record has is
    /// no error. A blank identifier is refused before anything is touched.
    /// Where the engine fails, the records of the tenant are as before.
    pub fn delete_document(&mut self, user_id: TenantId, document_id: String) -> (outcome: Result<
        DeleteDocumentResponse,
        AppError,
    >)
        requires
            old(self).wf(),
        ensures
            final(self).wf(),
            final(self).base() == old(self).base(),
            kept_apart(*old(self), *final(self), user_id),
            old(self).has_tenant(user_id) ==> final(self).has_tenant(user_id),
            outcome matches Ok(response) ==> {
                &&& delete_fault(document_id@) is None
                &&& final(self).has_tenant(user_id)
                &&& delete_in(*old(self), *final(self), user_id, document_id@)
                &&& response.id@ == document_id@
                &&& response.status@ == "success"@
                &&& response.message@ == "Document deleted successfully"@
            },
            delete_fault(document_id@) is Some ==> outcome is Err,
            outcome is Err ==> kept(*old(self), *final(self), user_id),
            outcome matches Err(e) ==> if delete_fault(document_id@) is Some {
                rejects(e, delete_fault(document_id@)) && *final(self) == *old(self)
            } else {
                e is Index
            },
    {
        match validate_delete(document_id.as_str()) {
            Ok(()) => {},
            Err(e) => {
                return Err(e);
            },
        }
        let slot = match self.slot_of(user_id) {
            Ok(slot) => slot,
            Err(e) => {
                return Err(e);
            },
        };
        let ghost opened = *self;
        let handle = &mut self.handles[slot];
        let ghost live = handle.documents();
        let deleted = handle.delete(document_id.as_str());
        proof {
            Self::lemma_one_changed(opened, *self, user_id);
            assert forall|other: TenantId| other != user_id implies {
                &&& #[trigger] self.has_tenant(other) == old(self).has_tenant(other)
                &&& old(self).has_tenant(other) ==> self.documents(other) == old(self).documents(
                    other,
                )
            } by {
                assert(opened.has_tenant(other) == old(self).has_tenant(other));
                assert(self.has_tenant(other) == opened.has_tenant(other));
            }
        }
        match deleted {
            Ok(()) => {},
            Err(e) => {
                return Err(e);
            },
        }
        proof {
            assert(starts_from(*old(self), user_id, live));
            assert(delete_in(*old(self), *self, user_id, document_id@));
        }
        Ok(
            DeleteDocumentResponse {
                id: document_id,
                status: String::from_str("success"),
                message: String::from_str("Document deleted successfully"),
            },
        )
    }

    /// Searches the tenant's index and gives one page of hits, best first.
    /// `total` counts the hits of the page. A blank query, or a page size
    /// outside 1 to 100, is refused before anything is touched. Every
    /// result shows a record of the tenant that the query finds. For a
    /// query that weighs nothing (it holds no `^`), the page holds what is
    /// left of the records that the query finds once `offset` are skipped,
    /// up to `limit`, and its scores fall.
    pub fn search(&mut self, user_id: TenantId, query: SearchQuery) -> (outcome: Result<
        SearchResponse,
        AppError,
    >)
        requires
            old(self).wf(),
        ensures
            final(self).wf(),
            final(self).base() == old(self).base(),
            kept_apart(*old(self), *final(self), user_id),
            kept(*old(self), *final(self), user_id),
            outcome matches Ok(response) ==> {
                &&& search_fault(query) is None
                &&& final(self).has_tenant(user_id)
                &&& found_in(response.results@, records_found(final(self).documents(user_id), query))
                &&& response.results@.len() <= query.limit
                &&& response.total == response.results@.len()
                &&& response.query@ == query.query@
            },
            outcome matches Ok(response) ==> plain(query.query@) ==> {
                &&& response.results@.len() == rest_len(
                    query.limit as int,
                    query.offset as int,
                    records_found(final(self).documents(user_id), query).len() as int,
                )
                &&& falling(response.results@)
            },
            outcome matches Err(e) ==> if search_fault(query) is Some {
                rejects(e, search_fault(query)) && *final(self) == *old(self)
            } else {
                e is Search
            },
    {
        let start = start_timer();
        match validate_search(&query) {
            Ok(()) => {},
            Err(e) => {
                return Err(e);
            },
        }
        let slot = match self.slot_of(user_id) {
            Ok(slot) => slot,
            Err(e) => {
                return Err(as_search_failure(e));
            },
        };
        let results = match self.handles[slot].search(&query) {
            Ok(results) => results,
            Err(e) => {
                return Err(e);
            },
        };
        let took_ms = elapsed_millis(&start);
        let total = results.len();
        Ok(SearchResponse { results, total, query: query.query, took_ms })
    }

    /// Counts the documents of the tenant: those that the last commit
    /// left. A deleted document is not counted, whether the engine has
    /// cleared it away yet or not.
    pub fn get_user_stats(&mut self, user_id: TenantId) -> (outcome: Result<
        UserIndexStats,
        AppError,
    >)
        requires
            old(self).wf(),
        ensures
            final(self).wf(),
            final(self).base() == old(self).base(),
            kept_apart(*old(self), *final(self), user_id),
            kept(*old(self), *final(self), user_id),
            outcome matches Ok(stats) ==> {
                &&& final(self).has_tenant(user_id)
                &&& stats.user_id == user_id
                &&& stats.num_documents == least(
                    final(self).documents(user_id).len() as int,
                    usize::MAX as int,
                )
            },
            outcome matches Err(e) ==> e is Internal,
    {
        let slot = match self.slot_of(user_id) {
            Ok(slot) => slot,
            Err(e) => {
                return Err(as_internal_failure(e));
            },
        };
        match self.handles[slot].count() {
            Ok(num_documents) => Ok(UserIndexStats { user_id, num_documents }),
            Err(e) => Err(e),
        }
    }

    /// Gives one page of the tenant's documents, in the order of the
    /// engine. `total` counts the documents of the page. A page size
    /// outside 1 to 1000 is refused before anything is touched. The page
    /// holds what is left of the tenant's documents once `offset` are
    /// skipped, up to `limit`.
    pub fn browse_documents(&mut self, user_id: TenantId, query: BrowseDocumentsQuery) -> (outcome:
        Result<BrowseDocumentsResponse, AppError>)
        requires
            old(self).wf(),
        ensures
            final(self).wf(),
            final(self).base() == old(self).base(),
            kept_apart(*old(self), *final(self), user_id),
            kept(*old(self), *final(self), user_id),
            outcome matches Ok(response) ==> {
                &&& browse_fault(query) is None
                &&& final(self).has_tenant(user_id)
                &&& listed_in(response.documents@, final(self).documents(user_id))
                &&& response.documents@.len() == rest_len(
                    query.limit as int,
                    query.offset as int,
                    final(self).documents(user_id).len() as int,
                )
                &&& response.total == response.documents@.len()
            },
            outcome matches Err(e) ==> if browse_fault(query) is Some {
                rejects(e, browse_fault(query)) && *final(self) == *old(self)
            } else {
                e is Internal
            },
    {
        let start = start_timer();
        match validate_browse(&query) {
            Ok(()) => {},
            Err(e) => {
                return Err(e);
            },
        }
        let slot = match self.slot_of(user_id) {
            Ok(slot) => slot,
            Err(e) => {
                return Err(as_internal_failure(e));
            },
        };
        let documents = match self.handles[slot].browse(&query) {
            Ok(documents) => documents,
            Err(e) => {
                return Err(e);
            },
        };
        let took_ms = elapsed_millis(&start);
        let total = documents.len();
        Ok(BrowseDocumentsResponse { documents, total, took_ms })
    }
}

} // verus!
