//! One tenant's index: opened or created, written with upsert and delete,
//! read with search, browse and count.

use crate::clock::has_text;
use crate::engine::{
    add_document, after_delete, after_upsert, attach, commit, committed, count_documents,
    create_index, delete_term, directory, error_text, fetch, fits, fresh_searcher, holds_lock,
    index_fields, index_schema, is_keyword, lemma_queue_of_write, open_index, queued, rollback,
    same_schema, shows, snapshot, top_documents, top_matches, Hit, Operation, QueryFailure,
    TenantIndex,
};
use crate::engine::{address_of, best_first, found_by, plain};
use crate::reading::{lemma_drawn_from_found, lemma_found_count};
use crate::error::AppError;
use crate::ids::is_uuid_text;
use crate::models::{
    BrowseDocumentsQuery, DocumentDetail, IndexDocumentInput, SearchQuery, SearchResult,
    Timestamp,
};
use crate::paging::{page, paginate, rest_len, too_deep, window};
use crate::reading::{drawn_from, lemma_placed_page, lemma_seen_drawn, placed, seen};
use crate::schema::{is_detail_of, is_result_of, project_detail, project_result};
use crate::validation::{
    browse_fault, rejects, search_fault, time_fault, validate_browse, validate_search,
};
use crate::records::{lemma_record_round_trip, lemma_record_shape};
use crate::schema::{
    build_schema, built, content_of, doc_from_input, document_numbers, document_schema,
    document_values, extract_doc_id, lemma_document_schema_numbers, record_for, resolved_id,
    schema_fields, time_text, FieldNumbers, Record,
};
use vstd::multiset::Multiset;
use vstd::prelude::*;
use vstd::string::StringExecFns;

verus! {

/// The heap that the writer of one index may use, in bytes.
pub const WRITER_HEAP_BYTES: usize = 50_000_000;

/// One tenant's index, with the schema of the service.
pub struct IndexHandle {
    store: TenantIndex,
    schema: tantivy::schema::Schema,
    /// Set where a write failed and could not be cancelled. Such an index
    /// takes no further write.
    broken: bool,
}

/// Whether an upsert of a request took place: the time stamped on it has
/// an RFC 3339 text, `id` is the identifier of the request or the minted
/// one, which is the text of a UUID, and the records are those after the
/// upsert of its document.
pub open spec fn upserted(
    before: Multiset<Record>,
    after: Multiset<Record>,
    input: IndexDocumentInput,
    id: Seq<char>,
    minted: Seq<char>,
    now: Timestamp,
) -> bool {
    &&& time_text(input, now) is Some
    &&& id == resolved_id(input, minted)
    &&& input.id is None ==> is_uuid_text(minted)
    &&& after == after_upsert(
        before,
        document_numbers().id,
        id,
        record_for(document_numbers(), content_of(input, id, time_text(input, now)->0)),
    )
}

/// Whether an upsert of a request took place, for some identifier that was
/// minted and some time that the clock gave.
pub open spec fn upsert_done(
    before: Multiset<Record>,
    after: Multiset<Record>,
    input: IndexDocumentInput,
    id: Seq<char>,
) -> bool {
    exists|minted: Seq<char>, now: Timestamp| #[trigger]
        upserted(before, after, input, id, minted, now)
}

/// Whether search results show the given records, one each, in order.
pub open spec fn results_show(results: Seq<SearchResult>, records: Seq<Record>) -> bool {
    &&& results.len() == records.len()
    &&& forall|i: int|
        0 <= i < results.len() ==> is_result_of(
            #[trigger] results[i],
            document_numbers(),
            records[i],
            results[i].score_bits,
        )
}

/// Whether search results show records of a collection, none more often
/// than the collection has it.
pub open spec fn found_in(results: Seq<SearchResult>, live: Multiset<Record>) -> bool {
    exists|records: Seq<Record>| #[trigger]
        results_show(results, records) && drawn_from(records, live)
}

/// Whether browse entries show the given records, one each, in order.
pub open spec fn details_show(details: Seq<DocumentDetail>, records: Seq<Record>) -> bool {
    &&& details.len() == records.len()
    &&& forall|i: int|
        0 <= i < details.len() ==> is_detail_of(
            #[trigger] details[i],
            document_numbers(),
            records[i],
        )
}

/// Whether browse entries show records of a collection, none more often
/// than the collection has it.
pub open spec fn listed_in(details: Seq<DocumentDetail>, live: Multiset<Record>) -> bool {
    exists|records: Seq<Record>| #[trigger]
        details_show(details, records) && drawn_from(records, live)
}

/// Whether search results carry the scores of the given hits, one each, in
/// order.
pub open spec fn scores_follow(results: Seq<SearchResult>, hits: Seq<Hit>) -> bool {
    &&& results.len() == hits.len()
    &&& forall|i: int|
        0 <= i < results.len() ==> (#[trigger] results[i]).score_bits == hits[i].score_bits
}

/// Whether the scores of search results fall, or stay, from each to the
/// next. (Of scores that are not below zero, the greater has the greater
/// bit pattern.)
pub open spec fn falling(results: Seq<SearchResult>) -> bool {
    forall|i: int, j: int|
        0 <= i < j < results.len() ==> (#[trigger] results[i]).score_bits >= (
        #[trigger] results[j]).score_bits
}

/// The test for the records that a search request finds: those that its
/// text matches, read as a query over `title` and `body`.
pub open spec fn sought(query: SearchQuery) -> spec_fn(Record) -> bool {
    found_by(document_schema(), document_numbers().title, document_numbers().body, query.query@)
}

/// The records of a collection that a search request finds.
pub open spec fn records_found(live: Multiset<Record>, query: SearchQuery) -> Multiset<Record> {
    live.filter(sought(query))
}

/// A search error whose text says that the search failed, and why.
fn search_failure(cause: &str) -> (failure: AppError)
    ensures
        failure is Search,
{
    AppError::Search(String::from_str("Search failed: ").concat(cause))
}

/// An internal error with the engine's words as its cause.
fn internal_failure(error: &tantivy::TantivyError) -> (failure: AppError)
    ensures
        failure is Internal,
{
    AppError::Internal(error_text(error))
}

/// Reads the records of hits and shows each as a search result.
fn show_results(searcher: &tantivy::Searcher, numbers: &FieldNumbers, hits: &Vec<Hit>) -> (outcome:
    Result<Vec<SearchResult>, tantivy::TantivyError>)
    requires
        placed(snapshot(*searcher), hits@),
        *numbers == document_numbers(),
    ensures
        outcome matches Ok(results) ==> results_show(results@, seen(snapshot(*searcher), hits@)),
        outcome matches Ok(results) ==> scores_follow(results@, hits@),
        hits@.len() == 0 ==> outcome is Ok,
{
    let mut results: Vec<SearchResult> = Vec::new();
    let mut i: usize = 0;
    while i < hits.len()
        invariant
            i <= hits.len(),
            placed(snapshot(*searcher), hits@),
            *numbers == document_numbers(),
            results@.len() == i,
            forall|j: int|
                0 <= j < i ==> is_result_of(
                    #[trigger] results@[j],
                    document_numbers(),
                    seen(snapshot(*searcher), hits@)[j],
                    results@[j].score_bits,
                ),
            forall|j: int| 0 <= j < i ==> (#[trigger] results@[j]).score_bits == hits@[j].score_bits,
        decreases hits.len() - i,
    {
        let hit = hits[i];
        let document = match fetch(searcher, &hit) {
            Ok(document) => document,
            Err(e) => {
                return Err(e);
            },
        };
        results.push(project_result(numbers, &document, hit.score_bits));
        i = i + 1;
    }
    Ok(results)
}

/// Reads the records of hits and shows each as a browse entry.
fn show_details(searcher: &tantivy::Searcher, numbers: &FieldNumbers, hits: &Vec<Hit>) -> (outcome:
    Result<Vec<DocumentDetail>, tantivy::TantivyError>)
    requires
        placed(snapshot(*searcher), hits@),
        *numbers == document_numbers(),
    ensures
        outcome matches Ok(details) ==> details_show(details@, seen(snapshot(*searcher), hits@)),
        hits@.len() == 0 ==> outcome is Ok,
{
    let mut details: Vec<DocumentDetail> = Vec::new();
    let mut i: usize = 0;
    while i < hits.len()
        invariant
            i <= hits.len(),
            placed(snapshot(*searcher), hits@),
            *numbers == document_numbers(),
            details@.len() == i,
            forall|j: int|
                0 <= j < i ==> is_detail_of(
                    #[trigger] details@[j],
                    document_numbers(),
                    seen(snapshot(*searcher), hits@)[j],
                ),
        decreases hits.len() - i,
    {
        let hit = hits[i];
        let document = match fetch(searcher, &hit) {
            Ok(document) => document,
            Err(e) => {
                return Err(e);
            },
        };
        details.push(project_detail(numbers, &document));
        i = i + 1;
    }
    Ok(details)
}

/// Cuts the page out of the hits of a query and shows its records as
/// search results: the hits that are left once `offset` are skipped, up to
/// `limit` of them, in their order.
pub fn show_result_page(
    searcher: &tantivy::Searcher,
    numbers: &FieldNumbers,
    hits: &Vec<Hit>,
    offset: usize,
    limit: usize,
) -> (outcome: Result<Vec<SearchResult>, tantivy::TantivyError>)
    requires
        placed(snapshot(*searcher), hits@),
        *numbers == document_numbers(),
    ensures
        outcome matches Ok(results) ==> results_show(
            results@,
            seen(snapshot(*searcher), page(hits@, offset as int, limit as int)),
        ),
        outcome matches Ok(results) ==> scores_follow(
            results@,
            page(hits@, offset as int, limit as int),
        ),
        page(hits@, offset as int, limit as int).len() == 0 ==> outcome is Ok,
{
    let shown = paginate(hits, offset, limit);
    proof {
        lemma_placed_page(snapshot(*searcher), hits@, offset as int, limit as int);
    }
    show_results(searcher, numbers, &shown)
}

/// Cuts the page out of the hits of a listing and shows its records as
/// browse entries: the hits that are left once `offset` are skipped, up to
/// `limit` of them, in their order.
pub fn show_detail_page(
    searcher: &tantivy::Searcher,
    numbers: &FieldNumbers,
    hits: &Vec<Hit>,
    offset: usize,
    limit: usize,
) -> (outcome: Result<Vec<DocumentDetail>, tantivy::TantivyError>)
    requires
        placed(snapshot(*searcher), hits@),
        *numbers == document_numbers(),
    ensures
        outcome matches Ok(details) ==> details_show(
            details@,
            seen(snapshot(*searcher), page(hits@, offset as int, limit as int)),
        ),
        page(hits@, offset as int, limit as int).len() == 0 ==> outcome is Ok,
{
    let shown = paginate(hits, offset, limit);
    proof {
        lemma_placed_page(snapshot(*searcher), hits@, offset as int, limit as int);
    }
    show_details(searcher, numbers, &shown)
}

/// An index error whose text is a context, a colon and the engine's words.
fn index_failure(context: &str, error: &tantivy::TantivyError) -> (failure: AppError)
    ensures
        failure is Index,
{
    let text = String::from_str(context).concat(": ").concat(error_text(error).as_str());
    AppError::Index(text)
}

impl IndexHandle {
    /// Whether the index and the handle have the schema of the service,
    /// and, unless a write could not be cancelled, nothing waits in the
    /// writer's queue.
    pub closed spec fn wf(&self) -> bool {
        &&& index_fields(self.store) == document_schema()
        &&& schema_fields(self.schema) == document_schema()
        &&& !self.broken ==> queued(self.store) == Seq::<Operation>::empty() && holds_lock(
            self.store,
        )
    }

    /// The records that the last commit left in the index.
    pub closed spec fn documents(&self) -> Multiset<Record> {
        committed(self.store)
    }

    /// The directory in which the index is kept.
    pub closed spec fn location(&self) -> Seq<char> {
        directory(self.store)
    }

    /// Makes the handle of an index that was opened, given the schema of
    /// the service and whether the index was found to have it. An index
    /// with another schema is refused.
    pub fn assemble(store: TenantIndex, schema: tantivy::schema::Schema, same: bool) -> (outcome:
        Result<IndexHandle, AppError>)
        requires
            schema_fields(schema) == document_schema(),
            same ==> index_fields(store) == schema_fields(schema),
            queued(store) == Seq::<Operation>::empty(),
            holds_lock(store),
        ensures
            match outcome {
                Ok(handle) => {
                    &&& same
                    &&& handle.wf()
                    &&& handle.documents() == committed(store)
                    &&& handle.location() == directory(store)
                },
                Err(e) => !same && e is Index,
            },
    {
        if same {
            Ok(IndexHandle { store, schema, broken: false })
        } else {
            Err(AppError::Index(String::from_str("The index has another schema than the service")))
        }
    }

    /// Opens the index that the directory at `path` holds, or starts an
    /// empty one where it holds none, with one writer and one reader. The
    /// directory must exist. An index with another schema than that of the
    /// service is refused.
    pub fn new(path: &str) -> (outcome: Result<IndexHandle, AppError>)
        ensures
            match outcome {
                Ok(handle) => handle.wf() && handle.location() == path@,
                Err(e) => e is Index,
            },
    {
        let schema = build_schema();
        let index = match open_index(path) {
            Ok(index) => index,
            Err(_) => match create_index(path, &schema) {
                Ok(index) => index,
                Err(e) => {
                    return Err(index_failure("Failed to create index", &e));
                },
            },
        };
        let store = match attach(index, WRITER_HEAP_BYTES) {
            Ok(store) => store,
            Err(e) => {
                return Err(index_failure("Failed to create index writer and reader", &e));
            },
        };
        let found = index_schema(&store);
        let same = same_schema(&found, &schema);
        IndexHandle::assemble(store, schema, same)
    }

    /// Cancels what a failed write left in the writer's queue. Where that
    /// fails too, the index takes no further write.
    fn cancel(&mut self)
        requires
            !old(self).broken,
            holds_lock(old(self).store),
            index_fields(old(self).store) == document_schema(),
            schema_fields(old(self).schema) == document_schema(),
        ensures
            final(self).wf(),
            final(self).documents() == old(self).documents(),
            final(self).location() == old(self).location(),
    {
        match rollback(&mut self.store) {
            Ok(()) => {},
            Err(_) => {
                self.broken = true;
            },
        }
    }

    /// Writes the document of a request under its identifier, in place of
    /// every record that the index finds under that identifier, and
    /// commits. Gives the identifier. A request with a time that cannot be
    /// written out is refused before anything is touched. Where the engine
    /// fails, what was queued is cancelled and the records are as before.
    pub fn upsert(&mut self, input: &IndexDocumentInput) -> (outcome: Result<String, AppError>)
        requires
            old(self).wf(),
        ensures
            final(self).wf(),
            final(self).location() == old(self).location(),
            outcome matches Ok(id) ==> upsert_done(
                old(self).documents(),
                final(self).documents(),
                *input,
                id@,
            ),
            outcome matches Ok(id) ==> match input.id {
                Some(given) => id@ == given@,
                None => is_uuid_text(id@),
            },
            time_fault(*input) ==> outcome is Err,
            outcome matches Err(e) ==> final(self).documents() == old(self).documents(),
            outcome matches Err(e) ==> if time_fault(*input) {
                e is Validation && *final(self) == *old(self)
            } else {
                e is Index
            },
    {
        proof {
            lemma_document_schema_numbers();
        }
        let built_document = doc_from_input(&self.schema, input);
        let ghost fields = document_schema();
        let ghost (minted, now) = choose|minted: Seq<char>, now: Timestamp| #[trigger]
            built(built_document, fields, *input, minted, now) && (
            input.metadata.created_at is None ==> has_text(now)) && (input.id is None
                ==> is_uuid_text(minted));
        proof {
            assert(built(built_document, fields, *input, minted, now));
            assert(built_document is Err <==> time_fault(*input));
        }
        let document = match built_document {
            Ok(document) => document,
            Err(e) => {
                return Err(e);
            },
        };
        if self.broken {
            return Err(AppError::Index(String::from_str("The index takes no further write")));
        }
        let ghost id_text = resolved_id(*input, minted);
        let ghost content = content_of(*input, id_text, time_text(*input, now)->0);
        let ghost record = record_for(document_numbers(), content);
        proof {
            assert(document_values(document) == record);
            lemma_record_round_trip(document_numbers(), content);
            lemma_record_shape(content);
        }
        let id = match extract_doc_id(&self.schema, &document) {
            Some(id) => id,
            None => {
                proof {
                    assert(false);
                }
                return Err(AppError::Index(String::from_str("The document has no identifier")));
            },
        };
        let numbers = match FieldNumbers::resolve(&self.schema) {
            Some(numbers) => numbers,
            None => {
                proof {
                    assert(false);
                }
                return Err(AppError::Index(String::from_str("ID field not found in schema")));
            },
        };
        proof {
            assert(is_keyword(index_fields(self.store), numbers.id));
            assert(fits(index_fields(self.store), document_values(document)));
        }
        delete_term(&mut self.store, numbers.id, id.as_str());
        match add_document(&mut self.store, document) {
            Ok(()) => {},
            Err(e) => {
                self.cancel();
                return Err(index_failure("Failed to index document", &e));
            },
        }
        match commit(&mut self.store) {
            Ok(()) => {},
            Err(e) => {
                self.cancel();
                return Err(index_failure("Failed to index document", &e));
            },
        }
        proof {
            lemma_queue_of_write(old(self).documents(), numbers.id, id@, record);
            assert(upserted(old(self).documents(), self.documents(), *input, id@, minted, now));
            assert(upsert_done(old(self).documents(), self.documents(), *input, id@));
        }
        Ok(id)
    }

    /// Deletes every record that the index finds under an identifier, and
    /// commits. To delete an identifier that no record has is no error.
    /// Where the engine fails, what was queued is cancelled and the records
    /// are as before.
    pub fn delete(&mut self, id: &str) -> (outcome: Result<(), AppError>)
        requires
            old(self).wf(),
        ensures
            final(self).wf(),
            final(self).location() == old(self).location(),
            match outcome {
                Ok(()) => final(self).documents() == after_delete(
                    old(self).documents(),
                    document_numbers().id,
                    id@,
                ),
                Err(e) => e is Index && final(self).documents() == old(self).documents(),
            },
    {
        proof {
            lemma_document_schema_numbers();
        }
        if self.broken {
            return Err(AppError::Index(String::from_str("The index takes no further write")));
        }
        let numbers = match FieldNumbers::resolve(&self.schema) {
            Some(numbers) => numbers,
            None => {
                proof {
                    assert(false);
                }
                return Err(AppError::Index(String::from_str("ID field not found in schema")));
            },
        };
        proof {
            assert(is_keyword(index_fields(self.store), numbers.id));
        }
        delete_term(&mut self.store, numbers.id, id);
        match commit(&mut self.store) {
            Ok(()) => {
                proof {
                    lemma_queue_of_write(
                        old(self).documents(),
                        numbers.id,
                        id@,
                        Seq::<crate::schema::StoredValue>::empty(),
                    );
                }
                Ok(())
            },
            Err(e) => {
                self.cancel();
                Err(index_failure("Failed to delete document", &e))
            },
        }
    }

    /// Runs a query over `title` and `body` and gives one page of its hits,
    /// best first: the hits that are left once `offset` are skipped, up to
    /// `limit` of them. The reader is reloaded first, so that the page
    /// shows what the last commit left. Every result shows a record that
    /// the query finds. For a query that weighs nothing, the page is as
    /// long as the records that the query finds allow, and its scores fall.
    pub fn search(&self, query: &SearchQuery) -> (outcome: Result<Vec<SearchResult>, AppError>)
        requires
            self.wf(),
        ensures
            outcome matches Ok(results) ==> {
                &&& search_fault(*query) is None
                &&& results@.len() <= query.limit
                &&& found_in(results@, records_found(self.documents(), *query))
            },
            outcome matches Ok(results) ==> plain(query.query@) ==> {
                &&& results@.len() == rest_len(
                    query.limit as int,
                    query.offset as int,
                    records_found(self.documents(), *query).len() as int,
                )
                &&& falling(results@)
            },
            too_deep(query.limit, query.offset, self.documents().len()) ==> outcome is Err,
            outcome matches Err(e) ==> if search_fault(*query) is Some {
                rejects(e, search_fault(*query))
            } else {
                e is Search
            },
    {
        match validate_search(query) {
            Ok(()) => {},
            Err(e) => {
                return Err(e);
            },
        }
        proof {
            lemma_document_schema_numbers();
        }
        let searcher = match fresh_searcher(&self.store) {
            Ok(searcher) => searcher,
            Err(e) => {
                return Err(search_failure(error_text(&e).as_str()));
            },
        };
        let numbers = match FieldNumbers::resolve(&self.schema) {
            Some(numbers) => numbers,
            None => {
                proof {
                    assert(false);
                }
                return Err(search_failure("Title field not found"));
            },
        };
        let count = count_documents(&searcher);
        let wanted = match window(query.limit, query.offset, count) {
            Some(wanted) => wanted,
            None => {
                return Err(search_failure("The page lies deeper than the engine can reach"));
            },
        };
        let hits = match top_matches(
            &self.store,
            &searcher,
            numbers.title,
            numbers.body,
            query.query.as_str(),
            wanted,
        ) {
            Ok(hits) => hits,
            Err(QueryFailure::Parse) => {
                return Err(search_failure("Failed to parse search query"));
            },
            Err(QueryFailure::Run(cause)) => {
                return Err(search_failure(cause.as_str()));
            },
        };
        let shown = show_result_page(&searcher, &numbers, &hits, query.offset, query.limit);
        let results = match shown {
            Ok(results) => results,
            Err(e) => {
                return Err(search_failure(error_text(&e).as_str()));
            },
        };
        proof {
            let cut = page(hits@, query.offset as int, query.limit as int);
            let records = seen(snapshot(searcher), cut);
            lemma_placed_page(snapshot(searcher), hits@, query.offset as int, query.limit as int);
            lemma_seen_drawn(snapshot(searcher), self.documents(), cut);
            let test = sought(*query);
            let start = crate::paging::least(query.offset as int, hits@.len() as int);
            assert forall|i: int| 0 <= i < records.len() implies test(#[trigger] records[i]) by {
                assert(cut[i] == hits@[start + i]);
                assert(records[i] == snapshot(searcher)[address_of(hits@[start + i])]);
            }
            lemma_drawn_from_found(records, self.documents(), test);
            let found = records_found(self.documents(), *query);
            assert(results_show(results@, records) && drawn_from(records, found));
            assert(found_in(results@, found));
            lemma_found_count(snapshot(searcher), self.documents(), test);
            if plain(query.query@) {
                assert(results@.len() == rest_len(
                    query.limit as int,
                    query.offset as int,
                    found.len() as int,
                ));
                assert forall|i: int, j: int| 0 <= i < j < results@.len() implies (
                #[trigger] results@[i]).score_bits >= (#[trigger] results@[j]).score_bits by {
                    assert(cut[i] == hits@[start + i]);
                    assert(cut[j] == hits@[start + j]);
                }
            }
        }
        Ok(results)
    }

    /// Gives one page of all records, in the order of the engine: the
    /// records that are left once `offset` are skipped, up to `limit` of
    /// them. The reader is reloaded first. A page that lies deeper than the
    /// engine can be asked to reach is an error, never a shorter page.
    pub fn browse(&self, query: &BrowseDocumentsQuery) -> (outcome: Result<
        Vec<DocumentDetail>,
        AppError,
    >)
        requires
            self.wf(),
        ensures
            outcome matches Ok(details) ==> {
                &&& browse_fault(*query) is None
                &&& details@.len() == rest_len(
                    query.limit as int,
                    query.offset as int,
                    self.documents().len() as int,
                )
                &&& listed_in(details@, self.documents())
            },
            too_deep(query.limit, query.offset, self.documents().len()) ==> outcome is Err,
            outcome matches Err(e) ==> if browse_fault(*query) is Some {
                rejects(e, browse_fault(*query))
            } else {
                e is Internal
            },
    {
        match validate_browse(query) {
            Ok(()) => {},
            Err(e) => {
                return Err(e);
            },
        }
        proof {
            lemma_document_schema_numbers();
        }
        let searcher = match fresh_searcher(&self.store) {
            Ok(searcher) => searcher,
            Err(e) => {
                return Err(internal_failure(&e));
            },
        };
        let numbers = match FieldNumbers::resolve(&self.schema) {
            Some(numbers) => numbers,
            None => {
                proof {
                    assert(false);
                }
                return Err(AppError::Internal(String::from_str("ID field not found")));
            },
        };
        let count = count_documents(&searcher);
        let wanted = match window(query.limit, query.offset, count) {
            Some(wanted) => wanted,
            None => {
                return Err(
                    AppError::Internal(
                        String::from_str("The page lies deeper than the engine can reach"),
                    ),
                );
            },
        };
        let hits = match top_documents(&searcher, wanted) {
            Ok(hits) => hits,
            Err(e) => {
                return Err(internal_failure(&e));
            },
        };
        proof {
            assert(hits@.len() == crate::paging::least(
                query.limit + query.offset,
                self.documents().len() as int,
            ));
        }
        let shown = show_detail_page(&searcher, &numbers, &hits, query.offset, query.limit);
        let details = match shown {
            Ok(details) => details,
            Err(e) => {
                return Err(internal_failure(&e));
            },
        };
        proof {
            let cut = page(hits@, query.offset as int, query.limit as int);
            let records = seen(snapshot(searcher), cut);
            lemma_placed_page(snapshot(searcher), hits@, query.offset as int, query.limit as int);
            lemma_seen_drawn(snapshot(searcher), self.documents(), cut);
            assert(details_show(details@, records) && drawn_from(records, self.documents()));
            assert(listed_in(details@, self.documents()));
        }
        Ok(details)
    }

    /// Counts the records that the last commit left. The reader is
    /// reloaded first. A count beyond `usize` is given as its largest value.
    pub fn count(&self) -> (outcome: Result<usize, AppError>)
        requires
            self.wf(),
        ensures
            outcome matches Ok(count) ==> count == crate::paging::least(
                self.documents().len() as int,
                usize::MAX as int,
            ),
            outcome matches Err(e) ==> e is Internal,
    {
        let searcher = match fresh_searcher(&self.store) {
            Ok(searcher) => searcher,
            Err(e) => {
                return Err(internal_failure(&e));
            },
        };
        let count = count_documents(&searcher);
        if count > usize::MAX as u64 {
            Ok(usize::MAX)
        } else {
            Ok(count as usize)
        }
    }
}

} // verus!
