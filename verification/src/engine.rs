//! The index engine, as the library sees it.
//!
//! One tenant's index is a collection of records. It is changed by queueing
//! deletions and additions and committing them, and read through a searcher,
//! which is a snapshot of what was committed. The functions of this module
//! that call the engine are believed, not proved: each says which function
//! of the tantivy crate it calls and what it claims of it.

use crate::schema::{document_values, schema_fields, text_value, FieldKind, FieldSpec, Record};
use tantivy::collector::TopDocs;
use tantivy::query::{AllQuery, QueryParser};
use tantivy::schema::Field;
use vstd::multiset::Multiset;
use vstd::prelude::*;
use vstd::utf8::encode_utf8;

verus! {

/// `tantivy::Index`. Nothing is known of a value of it.
#[verifier::external_type_specification]
#[verifier::external_body]
pub struct ExIndex(tantivy::Index);

/// `tantivy::Searcher`, known by the records that it sees.
#[verifier::external_type_specification]
#[verifier::external_body]
pub struct ExSearcher(tantivy::Searcher);

/// `tantivy::TantivyError`. Nothing is known of a value of it.
#[verifier::external_type_specification]
#[verifier::external_body]
pub struct ExTantivyError(tantivy::TantivyError);

/// One tenant's index with its writer and its reader. The engine's writer
/// type is generic over a trait of the engine and cannot be declared by
/// itself, so it is kept here. The index and the reader are kept with it:
/// what a searcher sees is what this writer committed, and that can be said
/// only of handles that are known to belong to one index.
#[verifier::external_body]
pub struct TenantIndex {
    index: tantivy::Index,
    writer: tantivy::IndexWriter,
    reader: tantivy::IndexReader,
}

/// A change that waits in the writer's queue for the next commit.
pub enum Operation {
    /// Delete every record that holds `text` as a term of the field.
    Delete { field: u32, text: Seq<char> },
    /// Add one record.
    Add { record: Record },
}

/// The place of a record in a snapshot: its segment and its number there.
pub type Address = (u32, u32);

/// One hit of a query.
#[derive(Debug, Clone, Copy)]
pub struct Hit {
    /// The relevance score as the bit pattern of an IEEE-754 single.
    pub score_bits: u32,
    pub segment: u32,
    pub doc: u32,
}

/// Why a query gave no hits.
#[derive(Debug, Clone)]
pub enum QueryFailure {
    /// The text is no query.
    Parse,
    /// The engine failed while it ran the query. Its message is carried.
    Run(String),
}

/// The directory in which an index was opened or created.
pub uninterp spec fn index_directory(index: tantivy::Index) -> Seq<char>;

/// The directory in which the index was opened or created.
pub uninterp spec fn directory(index: TenantIndex) -> Seq<char>;

/// Whether the writer holds the lock on its directory. It holds it from
/// the start, and loses it only where a rollback fails.
pub uninterp spec fn holds_lock(index: TenantIndex) -> bool;

/// The schema of the index.
pub uninterp spec fn index_fields(index: TenantIndex) -> Seq<FieldSpec>;

/// The schema of the index of which the searcher is a snapshot.
pub uninterp spec fn searcher_fields(searcher: tantivy::Searcher) -> Seq<FieldSpec>;

/// The records that the last commit left in the index.
pub uninterp spec fn committed(index: TenantIndex) -> Multiset<Record>;

/// The changes queued since the last commit, oldest first.
pub uninterp spec fn queued(index: TenantIndex) -> Seq<Operation>;

/// The records that a searcher sees, each at its address.
pub uninterp spec fn snapshot(searcher: tantivy::Searcher) -> Map<Address, Record>;

// ---------------------------------------------------------------------------
// What the operations mean
// ---------------------------------------------------------------------------

/// The longest text, in bytes of UTF-8, that the engine indexes as a term.
/// It drops a longer one from the index without an error.
pub const MAX_TERM_BYTES: usize = 65530;

/// Whether the engine can be asked for so many hits at once. It takes no
/// request for none, and it sets aside room for twice as many hits, of 12
/// bytes each, before it looks for the first; no such room can be larger
/// than half the address space.
pub open spec fn collectable(window: int) -> bool {
    1 <= window && window * 48 <= usize::MAX
}

/// Whether a query finds a record: whether the record matches the text,
/// read as a query of the engine over two default fields of the schema.
/// A record is indexed from its values alone, so this is a matter of the
/// record and the query.
pub uninterp spec fn query_finds(
    fields: Seq<FieldSpec>,
    first: u32,
    second: u32,
    text: Seq<char>,
    record: Record,
) -> bool;

/// The test for the records that a query finds.
pub open spec fn found_by(fields: Seq<FieldSpec>, first: u32, second: u32, text: Seq<char>)
    -> spec_fn(Record) -> bool {
    |record: Record| query_finds(fields, first, second, text, record)
}

/// Whether a query text weighs no part of itself: it holds no `^`. The
/// engine scores every record that such a query finds, with a score that
/// is a number and not below zero. A weight can make a score that is no
/// number, and the engine passes over a record with such a score.
pub open spec fn plain(text: Seq<char>) -> bool {
    forall|i: int| 0 <= i < text.len() ==> #[trigger] text[i] != '^'
}

/// The addresses at which a snapshot holds a record that passes a test.
pub open spec fn finders(records: Map<Address, Record>, test: spec_fn(Record) -> bool) -> Set<
    Address,
> {
    Set::new(|a: Address| records.dom().contains(a) && test(records[a]))
}

/// Whether hits come best first: by falling score, and hits of one score
/// by their address. (Of scores that are not below zero, the greater has
/// the greater bit pattern.)
pub open spec fn best_first(hits: Seq<Hit>) -> bool {
    forall|i: int, j: int|
        0 <= i < j < hits.len() ==> {
            ||| (#[trigger] hits[i]).score_bits > (#[trigger] hits[j]).score_bits
            ||| hits[i].score_bits == hits[j].score_bits && address_before(hits[i], hits[j])
        }
}

/// Whether the address of one hit stands before that of another: by
/// segment, and within a segment by number.
pub open spec fn address_before(one: Hit, other: Hit) -> bool {
    one.segment < other.segment || (one.segment == other.segment && one.doc < other.doc)
}

/// Whether the engine indexes the text of a keyword field as a term.
pub open spec fn indexable(text: Seq<char>) -> bool {
    encode_utf8(text).len() <= MAX_TERM_BYTES
}

/// Whether a record holds `text` as a value of the field.
pub open spec fn has_value(record: Record, field: u32, text: Seq<char>) -> bool {
    exists|i: int| 0 <= i < record.len() && #[trigger] record[i] == text_value(field, text)
}

/// Whether the index finds a record under the term `text` of a keyword
/// field: the record holds the text as a value of the field, and the text
/// is short enough to be indexed.
pub open spec fn has_term(record: Record, field: u32, text: Seq<char>) -> bool {
    indexable(text) && has_value(record, field, text)
}

/// The test for the records that a deletion leaves.
pub open spec fn survives(field: u32, text: Seq<char>) -> spec_fn(Record) -> bool {
    |record: Record| !has_term(record, field, text)
}

/// The records after one change.
pub open spec fn apply(live: Multiset<Record>, operation: Operation) -> Multiset<Record> {
    match operation {
        Operation::Delete { field, text } => live.filter(survives(field, text)),
        Operation::Add { record } => live.insert(record),
    }
}

/// The records after a queue of changes, applied oldest first. A deletion
/// reaches what was committed before and what was added before it in the
/// same queue.
pub open spec fn apply_all(live: Multiset<Record>, operations: Seq<Operation>) -> Multiset<Record>
    decreases operations.len(),
{
    if operations.len() == 0 {
        live
    } else {
        apply(apply_all(live, operations.drop_last()), operations.last())
    }
}

/// Whether a field of the schema is a keyword.
pub open spec fn is_keyword(fields: Seq<FieldSpec>, field: u32) -> bool {
    field < fields.len() && fields[field as int].kind == Some(FieldKind::Keyword)
}

/// Whether every value of a record is a text in a stored text field of the
/// schema. The engine keeps such a record as it is.
pub open spec fn fits(fields: Seq<FieldSpec>, record: Record) -> bool {
    forall|i: int|
        0 <= i < record.len() ==> {
            &&& (#[trigger] record[i]).field < fields.len()
            &&& fields[record[i].field as int].kind is Some
            &&& record[i].text is Some
        }
}

/// The addresses at which a snapshot holds a given record.
pub open spec fn holders(records: Map<Address, Record>, record: Record) -> Set<Address> {
    Set::new(|a: Address| records.dom().contains(a) && records[a] == record)
}

/// Whether a searcher shows exactly the given records: as many addresses
/// hold a record as the collection has copies of it.
pub open spec fn shows(records: Map<Address, Record>, live: Multiset<Record>) -> bool {
    &&& records.dom().finite()
    &&& records.dom().len() == live.len()
    &&& forall|record: Record| #[trigger] live.count(record) == holders(records, record).len()
}

/// Whether an index is at the same place with the same schema as before.
pub open spec fn same_place(before: TenantIndex, after: TenantIndex) -> bool {
    index_fields(after) == index_fields(before) && directory(after) == directory(before)
}

/// The smaller of two counts.
pub open spec fn smaller(a: nat, b: nat) -> nat {
    if a <= b {
        a
    } else {
        b
    }
}

/// The address of a hit.
pub open spec fn address_of(hit: Hit) -> Address {
    (hit.segment, hit.doc)
}

/// Whether hits come in the order of their addresses: by segment, and
/// within a segment by number.
pub open spec fn ascending(hits: Seq<Hit>) -> bool {
    forall|i: int, j: int|
        0 <= i < j < hits.len() ==> address_before(#[trigger] hits[i], #[trigger] hits[j])
}

/// Whether hits are an answer of a snapshot: at most `window` of them, each
/// at an address of the snapshot, no address twice.
pub open spec fn answer_of(records: Map<Address, Record>, hits: Seq<Hit>, window: int) -> bool {
    &&& hits.len() <= window
    &&& forall|i: int| 0 <= i < hits.len() ==> records.dom().contains(address_of(#[trigger] hits[i]))
    &&& forall|i: int, j: int|
        0 <= i < j < hits.len() ==> address_of(#[trigger] hits[i]) != address_of(#[trigger] hits[j])
}

// ---------------------------------------------------------------------------
// Calls into the engine
// ---------------------------------------------------------------------------

/// Calls `Index::open_in_dir`, which opens the index that a directory holds.
/// Of an index that it gives, only the directory is known.
#[verifier::external_body]
pub(crate) fn open_index(path: &str) -> (outcome: Result<tantivy::Index, tantivy::TantivyError>)
    ensures
        outcome matches Ok(index) ==> index_directory(index) == path@,
{
    tantivy::Index::open_in_dir(path)
}

/// Calls `Index::create_in_dir`, which starts an empty index in a directory
/// that holds none. Of an index that it gives, only the directory is known
/// here; its schema is read back from it.
#[verifier::external_body]
pub(crate) fn create_index(path: &str, schema: &tantivy::schema::Schema) -> (outcome: Result<
    tantivy::Index,
    tantivy::TantivyError,
>)
    ensures
        outcome matches Ok(index) ==> index_directory(index) == path@,
{
    tantivy::Index::create_in_dir(path, schema.clone())
}

/// Calls `Index::writer` with the heap budget, then `Index::reader`, both on
/// the one index, and keeps the three together, so that the reader reads
/// the index that the writer writes. A new writer has nothing queued and
/// holds the lock on the directory.
#[verifier::external_body]
pub(crate) fn attach(index: tantivy::Index, heap_bytes: usize) -> (outcome: Result<
    TenantIndex,
    tantivy::TantivyError,
>)
    ensures
        outcome matches Ok(opened) ==> {
            &&& queued(opened) == Seq::<Operation>::empty()
            &&& holds_lock(opened)
            &&& directory(opened) == index_directory(index)
        },
{
    let writer: tantivy::IndexWriter = index.writer(heap_bytes)?;
    let reader = index.reader()?;
    Ok(TenantIndex { index, writer, reader })
}

/// Calls `Index::schema`, which gives the schema of the index.
#[verifier::external_body]
pub(crate) fn index_schema(index: &TenantIndex) -> (schema: tantivy::schema::Schema)
    ensures
        schema_fields(schema) == index_fields(*index),
{
    index.index.schema()
}

/// Compares two schemas with the `==` of `Schema`, which holds only where
/// they have the same fields with the same options.
#[verifier::external_body]
pub(crate) fn same_schema(a: &tantivy::schema::Schema, b: &tantivy::schema::Schema) -> (same: bool)
    ensures
        same ==> schema_fields(*a) == schema_fields(*b),
{
    a == b
}

/// Calls `IndexWriter::delete_term` with the term of a text in a keyword
/// field. The deletion is queued; nothing committed changes.
#[verifier::external_body]
pub(crate) fn delete_term(index: &mut TenantIndex, field: u32, text: &str)
    requires
        is_keyword(index_fields(*old(index)), field),
    ensures
        same_place(*old(index), *final(index)),
        holds_lock(*final(index)) == holds_lock(*old(index)),
        committed(*final(index)) == committed(*old(index)),
        queued(*final(index)) == queued(*old(index)).push(
            Operation::Delete { field, text: text@ },
        ),
{
    let field = tantivy::schema::Field::from_field_id(field);
    index.writer.delete_term(tantivy::Term::from_field_text(field, text));
}

/// Calls `IndexWriter::add_document`. The addition is queued where the call
/// succeeds; nothing committed changes either way.
#[verifier::external_body]
pub(crate) fn add_document(index: &mut TenantIndex, document: tantivy::TantivyDocument) -> (outcome:
    Result<(), tantivy::TantivyError>)
    requires
        fits(index_fields(*old(index)), document_values(document)),
    ensures
        same_place(*old(index), *final(index)),
        holds_lock(*final(index)) == holds_lock(*old(index)),
        committed(*final(index)) == committed(*old(index)),
        outcome is Ok ==> queued(*final(index)) == queued(*old(index)).push(
            Operation::Add { record: document_values(document) },
        ),
{
    index.writer.add_document(document).map(|_| ())
}

/// Calls `IndexWriter::commit`. Where it succeeds, the queued changes are
/// applied in their order and the queue is empty. Where it fails, no reader
/// sees a change: the engine publishes a commit by one write of its meta
/// file, and fails before that write or with it. Of the queue nothing is
/// claimed then.
#[verifier::external_body]
pub(crate) fn commit(index: &mut TenantIndex) -> (outcome: Result<(), tantivy::TantivyError>)
    ensures
        same_place(*old(index), *final(index)),
        holds_lock(*final(index)) == holds_lock(*old(index)),
        outcome is Ok ==> committed(*final(index)) == apply_all(
            committed(*old(index)),
            queued(*old(index)),
        ),
        outcome is Ok ==> queued(*final(index)) == Seq::<Operation>::empty(),
        outcome is Err ==> committed(*final(index)) == committed(*old(index)),
{
    index.writer.commit().map(|_| ())
}

/// Calls `IndexWriter::rollback`, which cancels what was queued since the
/// last commit and leaves the index as that commit left it. It panics on a
/// writer without its lock. Where it fails, the lock is lost and nothing is
/// claimed of the queue.
#[verifier::external_body]
pub(crate) fn rollback(index: &mut TenantIndex) -> (outcome: Result<(), tantivy::TantivyError>)
    requires
        holds_lock(*old(index)),
    ensures
        same_place(*old(index), *final(index)),
        committed(*final(index)) == committed(*old(index)),
        outcome is Ok ==> queued(*final(index)) == Seq::<Operation>::empty(),
        outcome is Ok ==> holds_lock(*final(index)),
{
    index.writer.rollback().map(|_| ())
}

/// Calls `IndexReader::reload`, which loads what the last commit left, and
/// then `IndexReader::searcher`, which hands out a snapshot of what is
/// loaded. The two stand in one function because only together do they
/// give a searcher that is known to be up to date.
#[verifier::external_body]
pub(crate) fn fresh_searcher(index: &TenantIndex) -> (outcome: Result<
    tantivy::Searcher,
    tantivy::TantivyError,
>)
    ensures
        outcome matches Ok(searcher) ==> shows(snapshot(searcher), committed(*index)),
        outcome matches Ok(searcher) ==> searcher_fields(searcher) == index_fields(*index),
{
    index.reader.reload()?;
    Ok(index.reader.searcher())
}

/// Calls `Searcher::num_docs`, the number of records of the snapshot.
#[verifier::external_body]
pub(crate) fn count_documents(searcher: &tantivy::Searcher) -> (count: u64)
    ensures
        count == snapshot(*searcher).dom().len(),
{
    searcher.num_docs()
}

/// Builds a parser with `QueryParser::for_index` over two default fields,
/// parses the text with `QueryParser::parse_query` and runs the query with
/// `Searcher::search` under `TopDocs::with_limit(window)`. The engine looks
/// every field of a query up in the schema and panics on a number that the
/// schema has not; `with_limit` panics for a window of 0 and sets aside
/// room for twice the window. Each hit is a different record of the
/// snapshot that the query finds. For a query that weighs nothing the hits
/// are the best `window` of the records that the query finds, or all of
/// them where there are fewer, best first.
#[verifier::external_body]
pub(crate) fn top_matches(
    index: &TenantIndex,
    searcher: &tantivy::Searcher,
    first: u32,
    second: u32,
    text: &str,
    window: usize,
) -> (outcome: Result<Vec<Hit>, QueryFailure>)
    requires
        first < index_fields(*index).len(),
        second < index_fields(*index).len(),
        searcher_fields(*searcher) == index_fields(*index),
        collectable(window as int),
    ensures
        outcome matches Ok(hits) ==> answer_of(snapshot(*searcher), hits@, window as int),
        outcome matches Ok(hits) ==> forall|i: int|
            0 <= i < hits@.len() ==> query_finds(
                index_fields(*index),
                first,
                second,
                text@,
                snapshot(*searcher)[address_of(#[trigger] hits@[i])],
            ),
        outcome matches Ok(hits) ==> plain(text@) ==> best_first(hits@) && hits@.len() == smaller(
            window as nat,
            finders(
                snapshot(*searcher),
                found_by(index_fields(*index), first, second, text@),
            ).len(),
        ),
{
    let fields = vec![Field::from_field_id(first), Field::from_field_id(second)];
    let parser = QueryParser::for_index(&index.index, fields);
    let query = parser.parse_query(text).map_err(|_| QueryFailure::Parse)?;
    let found = searcher.search(&query, &TopDocs::with_limit(window));
    let found = found.map_err(|e| QueryFailure::Run(e.to_string()))?;
    Ok(found.into_iter().map(|(score, a)| Hit {
        score_bits: score.to_bits(),
        segment: a.segment_ord,
        doc: a.doc_id,
    }).collect())
}

/// Runs `AllQuery`, which matches every record, with `Searcher::search`
/// under `TopDocs::with_limit(window)`. The hits are `window` different
/// records of the snapshot, or all of them where it holds fewer. `AllQuery`
/// gives every record the same score, and the collector orders hits of one
/// score by their address, so the hits come in the order of their
/// addresses.
#[verifier::external_body]
pub(crate) fn top_documents(searcher: &tantivy::Searcher, window: usize) -> (outcome: Result<
    Vec<Hit>,
    tantivy::TantivyError,
>)
    requires
        collectable(window as int),
    ensures
        outcome matches Ok(hits) ==> answer_of(snapshot(*searcher), hits@, window as int),
        outcome matches Ok(hits) ==> hits@.len() == smaller(
            window as nat,
            snapshot(*searcher).dom().len(),
        ),
        outcome matches Ok(hits) ==> ascending(hits@),
{
    let found = searcher.search(&AllQuery, &TopDocs::with_limit(window))?;
    Ok(found.into_iter().map(|(score, a)| Hit {
        score_bits: score.to_bits(),
        segment: a.segment_ord,
        doc: a.doc_id,
    }).collect())
}

/// Calls `Searcher::doc`, which reads the record at an address of the
/// snapshot.
#[verifier::external_body]
pub(crate) fn fetch(searcher: &tantivy::Searcher, hit: &Hit) -> (outcome: Result<
    tantivy::TantivyDocument,
    tantivy::TantivyError,
>)
    requires
        snapshot(*searcher).dom().contains(address_of(*hit)),
    ensures
        outcome matches Ok(document) ==> document_values(document) == snapshot(
            *searcher,
        )[address_of(*hit)],
{
    searcher.doc(tantivy::DocAddress::new(hit.segment, hit.doc))
}

/// Writes an engine error out through its `Display` impl. Nothing is
/// claimed of the text.
#[verifier::external_body]
pub(crate) fn error_text(error: &tantivy::TantivyError) -> String {
    error.to_string()
}

// ---------------------------------------------------------------------------
// Upsert and delete
// ---------------------------------------------------------------------------

/// The records once a document is written under an identifier: every
/// record gone that the index finds under the identifier, then the
/// document added.
pub open spec fn after_upsert(live: Multiset<Record>, id_field: u32, id: Seq<char>, record: Record)
    -> Multiset<Record> {
    after_delete(live, id_field, id).insert(record)
}

/// The records once an identifier is deleted: every record gone that the
/// index finds under the identifier.
pub open spec fn after_delete(live: Multiset<Record>, id_field: u32, id: Seq<char>) -> Multiset<
    Record,
> {
    live.filter(survives(id_field, id))
}

/// A queue with one more change does what the queue did, then the change.
pub proof fn lemma_apply_push(live: Multiset<Record>, queue: Seq<Operation>, operation: Operation)
    ensures
        apply_all(live, queue.push(operation)) == apply(apply_all(live, queue), operation),
{
    assert(queue.push(operation).drop_last() =~= queue);
    assert(queue.push(operation).last() == operation);
}

/// The queue of an upsert, run on its own, gives the records after the
/// upsert; that of a delete, those after the delete.
pub proof fn lemma_queue_of_write(
    live: Multiset<Record>,
    id_field: u32,
    id: Seq<char>,
    record: Record,
)
    ensures
        apply_all(
            live,
            Seq::<Operation>::empty().push(Operation::Delete { field: id_field, text: id }),
        ) == after_delete(live, id_field, id),
        apply_all(
            live,
            Seq::<Operation>::empty().push(Operation::Delete { field: id_field, text: id }).push(
                Operation::Add { record },
            ),
        ) == after_upsert(live, id_field, id, record),
{
    let none = Seq::<Operation>::empty();
    let deletion = Operation::Delete { field: id_field, text: id };
    lemma_apply_push(live, none, deletion);
    lemma_apply_push(live, none.push(deletion), Operation::Add { record });
}

} // verus!
