//! The layout of an indexed document, and the mapping between a request and
//! the engine's document.

use crate::clock::{format_rfc3339, has_text, now_utc, rfc3339_text, spec_stamp, stamp};
use crate::error::AppError;
use crate::ids::{is_uuid_text, mint_document_id};
use crate::models::{DocumentDetail, IndexDocumentInput, SearchResult, Timestamp};
use tantivy::schema::Value;
use vstd::prelude::*;
use vstd::string::StringExecFns;

verus! {

/// The names of the six fields of an indexed document.
pub struct FieldNames;

impl FieldNames {
    pub const ID: &'static str = "id";

    pub const TITLE: &'static str = "title";

    pub const BODY: &'static str = "body";

    pub const CREATED_AT: &'static str = "created_at";

    pub const TAGS: &'static str = "tags";

    pub const SOURCE: &'static str = "source";
}

/// How a text field is indexed. Both kinds are stored.
#[derive(Debug, Clone, Copy, PartialEq, Eq)]
pub enum FieldKind {
    /// Indexed as one term, the whole text, without tokenizing.
    Keyword,
    /// Split by the default tokenizer; frequencies and positions are kept.
    FullText,
}

/// One field of a schema: its name and, where it is a stored text field of
/// one of the two kinds, that kind.
pub struct FieldSpec {
    pub name: Seq<char>,
    pub kind: Option<FieldKind>,
}

/// One value of a document: the number of its field and, where the value is
/// a text, that text.
pub struct StoredValue {
    pub field: u32,
    pub text: Option<Seq<char>>,
}

/// What the engine keeps of one document: its values in the order in which
/// they were added.
pub type Record = Seq<StoredValue>;

// ---------------------------------------------------------------------------
// The engine's schema and document types
// ---------------------------------------------------------------------------

/// `tantivy::schema::Schema`, known by its fields alone.
#[verifier::external_type_specification]
#[verifier::external_body]
pub struct ExSchema(tantivy::schema::Schema);

/// `tantivy::schema::SchemaBuilder`, known by the fields added to it.
#[verifier::external_type_specification]
#[verifier::external_body]
pub struct ExSchemaBuilder(tantivy::schema::SchemaBuilder);

/// `tantivy::TantivyDocument`, known by its values alone.
#[verifier::external_type_specification]
#[verifier::external_body]
pub struct ExTantivyDocument(tantivy::TantivyDocument);

/// The fields of a schema, in the order of their numbers.
pub uninterp spec fn schema_fields(schema: tantivy::schema::Schema) -> Seq<FieldSpec>;

/// The fields added to a schema builder so far, in order.
pub uninterp spec fn builder_fields(builder: tantivy::schema::SchemaBuilder) -> Seq<FieldSpec>;

/// The values of a document, in the order in which they were added.
pub uninterp spec fn document_values(document: tantivy::TantivyDocument) -> Record;

/// A name the engine takes for a field: not empty, and no hyphen in front.
pub open spec fn valid_field_name(name: Seq<char>) -> bool {
    name.len() > 0 && name[0] != '-'
}

/// Whether a schema has a field of this name.
pub open spec fn has_field(fields: Seq<FieldSpec>, name: Seq<char>) -> bool {
    exists|i: int| 0 <= i < fields.len() && (#[trigger] fields[i]).name == name
}

/// The number of the field of this name.
pub open spec fn field_of(fields: Seq<FieldSpec>, name: Seq<char>) -> int {
    choose|i: int| 0 <= i < fields.len() && (#[trigger] fields[i]).name == name
}

/// Calls `Schema::builder`, which starts with no field.
#[verifier::external_body]
fn new_builder() -> (builder: tantivy::schema::SchemaBuilder)
    ensures
        builder_fields(builder) == Seq::<FieldSpec>::empty(),
{
    tantivy::schema::Schema::builder()
}

/// Calls `SchemaBuilder::add_text_field` with the options of the kind:
/// `STRING | STORED` for a keyword, `TEXT | STORED` for full text. The engine
/// numbers the fields in the order in which they are added, and panics on an
/// invalid name or on one that the builder already holds.
#[verifier::external_body]
fn add_text_field(
    builder: &mut tantivy::schema::SchemaBuilder,
    name: &str,
    kind: FieldKind,
) -> (field: u32)
    requires
        valid_field_name(name@),
        !has_field(builder_fields(*old(builder)), name@),
        builder_fields(*old(builder)).len() < u32::MAX,
    ensures
        builder_fields(*final(builder)) == builder_fields(*old(builder)).push(
            FieldSpec { name: name@, kind: Some(kind) },
        ),
        field == builder_fields(*old(builder)).len(),
{
    let options = match kind {
        FieldKind::Keyword => tantivy::schema::STRING | tantivy::schema::STORED,
        FieldKind::FullText => tantivy::schema::TEXT | tantivy::schema::STORED,
    };
    builder.add_text_field(name, options).field_id()
}

/// Calls `SchemaBuilder::build`, which keeps the fields as they were added.
#[verifier::external_body]
fn finish_schema(builder: tantivy::schema::SchemaBuilder) -> (schema: tantivy::schema::Schema)
    ensures
        schema_fields(schema) == builder_fields(builder),
{
    builder.build()
}

/// Calls `Schema::get_field`, which finds a field by its name. No two fields
/// of a schema share a name.
#[verifier::external_body]
fn find_field(schema: &tantivy::schema::Schema, name: &str) -> (field: Option<u32>)
    ensures
        match field {
            Some(f) => {
                &&& f < schema_fields(*schema).len()
                &&& schema_fields(*schema)[f as int].name == name@
                &&& forall|j: int|
                    0 <= j < schema_fields(*schema).len() && (#[trigger] schema_fields(
                        *schema,
                    )[j]).name == name@ ==> j == f
            },
            None => !has_field(schema_fields(*schema), name@),
        },
{
    schema.get_field(name).ok().map(|f| f.field_id())
}

/// Calls `TantivyDocument::default`, the document without values.
#[verifier::external_body]
fn new_document() -> (document: tantivy::TantivyDocument)
    ensures
        document_values(document) == Seq::<StoredValue>::empty(),
{
    tantivy::TantivyDocument::default()
}

/// Calls `TantivyDocument::add_text`, which appends one text value.
#[verifier::external_body]
fn add_text(document: &mut tantivy::TantivyDocument, field: u32, text: &str)
    ensures
        document_values(*final(document)) == document_values(*old(document)).push(
            StoredValue { field, text: Some(text@) },
        ),
{
    document.add_text(tantivy::schema::Field::from_field_id(field), text)
}

/// Calls `TantivyDocument::get_first`, which gives the first value of a
/// field, and reads it with `Value::as_str`, which gives its text if it is
/// one.
#[verifier::external_body]
fn first_text(document: &tantivy::TantivyDocument, field: u32) -> (text: Option<String>)
    ensures
        match text {
            Some(t) => spec_first_text(document_values(*document), field) == Some(t@),
            None => spec_first_text(document_values(*document), field) is None,
        },
{
    document.get_first(tantivy::schema::Field::from_field_id(field)).and_then(|v| v.as_str()).map(
        |s| s.to_string(),
    )
}

/// Calls `TantivyDocument::get_all`, which gives the values of a field in
/// order, and reads each with `Value::as_str`.
#[verifier::external_body]
fn all_texts(document: &tantivy::TantivyDocument, field: u32) -> (texts: Vec<Option<String>>)
    ensures
        texts@.len() == values_of(document_values(*document), field).len(),
        forall|i: int|
            0 <= i < texts@.len() ==> match #[trigger] texts@[i] {
                Some(t) => values_of(document_values(*document), field)[i].text == Some(t@),
                None => values_of(document_values(*document), field)[i].text is None,
            },
{
    document.get_all(tantivy::schema::Field::from_field_id(field)).map(
        |v| v.as_str().map(|s| s.to_string()),
    ).collect()
}

// ---------------------------------------------------------------------------
// Reading a record
// ---------------------------------------------------------------------------

/// The test for the values of one field.
pub open spec fn in_field(field: u32) -> spec_fn(StoredValue) -> bool {
    |v: StoredValue| v.field == field
}

/// The test for the values that are a text.
pub open spec fn is_text() -> spec_fn(StoredValue) -> bool {
    |v: StoredValue| v.text is Some
}

/// The text of a value that is one.
pub open spec fn text_in() -> spec_fn(StoredValue) -> Seq<char> {
    |v: StoredValue| v.text->0
}

/// The values of one field, in order.
pub open spec fn values_of(record: Record, field: u32) -> Record {
    record.filter(in_field(field))
}

/// The text of the first value of a field: `None` where the field has no
/// value, or where its first value is no text.
pub open spec fn spec_first_text(record: Record, field: u32) -> Option<Seq<char>> {
    if values_of(record, field).len() == 0 {
        None
    } else {
        values_of(record, field)[0].text
    }
}

/// The texts among the values of a field, in order.
pub open spec fn spec_texts(record: Record, field: u32) -> Seq<Seq<char>> {
    values_of(record, field).filter(is_text()).map_values(text_in())
}


// ---------------------------------------------------------------------------
// The schema of the service
// ---------------------------------------------------------------------------

/// The schema under which every tenant's documents are indexed.
pub open spec fn document_schema() -> Seq<FieldSpec> {
    seq![
        FieldSpec { name: FieldNames::ID@, kind: Some(FieldKind::Keyword) },
        FieldSpec { name: FieldNames::TITLE@, kind: Some(FieldKind::FullText) },
        FieldSpec { name: FieldNames::BODY@, kind: Some(FieldKind::FullText) },
        FieldSpec { name: FieldNames::CREATED_AT@, kind: Some(FieldKind::Keyword) },
        FieldSpec { name: FieldNames::TAGS@, kind: Some(FieldKind::FullText) },
        FieldSpec { name: FieldNames::SOURCE@, kind: Some(FieldKind::Keyword) },
    ]
}

/// The six names are valid field names, and no two of them are equal.
pub proof fn lemma_field_names()
    ensures
        valid_field_name(FieldNames::ID@),
        valid_field_name(FieldNames::TITLE@),
        valid_field_name(FieldNames::BODY@),
        valid_field_name(FieldNames::CREATED_AT@),
        valid_field_name(FieldNames::TAGS@),
        valid_field_name(FieldNames::SOURCE@),
        FieldNames::ID@.len() == 2,
        FieldNames::TITLE@.len() == 5,
        FieldNames::BODY@.len() == 4,
        FieldNames::CREATED_AT@.len() == 10,
        FieldNames::TAGS@.len() == 4,
        FieldNames::SOURCE@.len() == 6,
        FieldNames::BODY@ != FieldNames::TAGS@,
{
    reveal_strlit("id");
    reveal_strlit("title");
    reveal_strlit("body");
    reveal_strlit("created_at");
    reveal_strlit("tags");
    reveal_strlit("source");
    assert(FieldNames::BODY@[0] == 'b');
    assert(FieldNames::TAGS@[0] == 't');
}

/// Builds the schema of the service: six stored text fields, of which `id`,
/// `created_at` and `source` are keywords and `title`, `body` and `tags` are
/// full text.
pub fn build_schema() -> (schema: tantivy::schema::Schema)
    ensures
        schema_fields(schema) == document_schema(),
{
    proof {
        lemma_field_names();
    }
    let mut builder = new_builder();
    add_text_field(&mut builder, FieldNames::ID, FieldKind::Keyword);
    add_text_field(&mut builder, FieldNames::TITLE, FieldKind::FullText);
    add_text_field(&mut builder, FieldNames::BODY, FieldKind::FullText);
    add_text_field(&mut builder, FieldNames::CREATED_AT, FieldKind::Keyword);
    add_text_field(&mut builder, FieldNames::TAGS, FieldKind::FullText);
    add_text_field(&mut builder, FieldNames::SOURCE, FieldKind::Keyword);
    let schema = finish_schema(builder);
    assert(schema_fields(schema) =~= document_schema());
    schema
}

/// The numbers under which a schema holds the six fields of a document.
#[derive(Debug, Clone, Copy)]
pub struct FieldNumbers {
    pub id: u32,
    pub title: u32,
    pub body: u32,
    pub created_at: u32,
    pub tags: u32,
    pub source: u32,
}

/// Whether a schema holds all six fields of a document.
pub open spec fn has_document_fields(fields: Seq<FieldSpec>) -> bool {
    &&& has_field(fields, FieldNames::ID@)
    &&& has_field(fields, FieldNames::TITLE@)
    &&& has_field(fields, FieldNames::BODY@)
    &&& has_field(fields, FieldNames::CREATED_AT@)
    &&& has_field(fields, FieldNames::TAGS@)
    &&& has_field(fields, FieldNames::SOURCE@)
}

/// The numbers of the six fields in a schema that holds them.
pub open spec fn spec_numbers(fields: Seq<FieldSpec>) -> FieldNumbers {
    FieldNumbers {
        id: field_of(fields, FieldNames::ID@) as u32,
        title: field_of(fields, FieldNames::TITLE@) as u32,
        body: field_of(fields, FieldNames::BODY@) as u32,
        created_at: field_of(fields, FieldNames::CREATED_AT@) as u32,
        tags: field_of(fields, FieldNames::TAGS@) as u32,
        source: field_of(fields, FieldNames::SOURCE@) as u32,
    }
}

/// Finds a field by its name.
pub fn lookup(schema: &tantivy::schema::Schema, name: &str) -> (field: Option<u32>)
    ensures
        match field {
            Some(f) => has_field(schema_fields(*schema), name@) && f == field_of(
                schema_fields(*schema),
                name@,
            ) && f < schema_fields(*schema).len(),
            None => !has_field(schema_fields(*schema), name@),
        },
{
    let field = find_field(schema, name);
    proof {
        if let Some(f) = field {
            let fields = schema_fields(*schema);
            assert(fields[f as int].name == name@);
            assert(has_field(fields, name@));
            let chosen = field_of(fields, name@);
            assert(fields[chosen].name == name@);
        }
    }
    field
}

impl FieldNumbers {
    /// Whether no two of the six numbers are equal.
    pub open spec fn distinct(self) -> bool {
        &&& self.id != self.title
        &&& self.id != self.body
        &&& self.id != self.created_at
        &&& self.id != self.tags
        &&& self.id != self.source
        &&& self.title != self.body
        &&& self.title != self.created_at
        &&& self.title != self.tags
        &&& self.title != self.source
        &&& self.body != self.created_at
        &&& self.body != self.tags
        &&& self.body != self.source
        &&& self.created_at != self.tags
        &&& self.created_at != self.source
        &&& self.tags != self.source
    }

    /// Looks the six fields up in a schema. `None` where one is missing.
    pub fn resolve(schema: &tantivy::schema::Schema) -> (numbers: Option<FieldNumbers>)
        ensures
            match numbers {
                Some(n) => has_document_fields(schema_fields(*schema)) && n == spec_numbers(
                    schema_fields(*schema),
                ) && n.distinct(),
                None => !has_document_fields(schema_fields(*schema)),
            },
    {
        let id = match lookup(schema, FieldNames::ID) {
            Some(f) => f,
            None => { return None; },
        };
        let title = match lookup(schema, FieldNames::TITLE) {
            Some(f) => f,
            None => { return None; },
        };
        let body = match lookup(schema, FieldNames::BODY) {
            Some(f) => f,
            None => { return None; },
        };
        let created_at = match lookup(schema, FieldNames::CREATED_AT) {
            Some(f) => f,
            None => { return None; },
        };
        let tags = match lookup(schema, FieldNames::TAGS) {
            Some(f) => f,
            None => { return None; },
        };
        let source = match lookup(schema, FieldNames::SOURCE) {
            Some(f) => f,
            None => { return None; },
        };
        proof {
            lemma_numbers_distinct(schema_fields(*schema));
        }
        Some(FieldNumbers { id, title, body, created_at, tags, source })
    }
}

/// In a schema that holds the six fields, they stand under six different
/// numbers.
pub proof fn lemma_numbers_distinct(fields: Seq<FieldSpec>)
    requires
        has_document_fields(fields),
        field_of(fields, FieldNames::ID@) <= u32::MAX,
        field_of(fields, FieldNames::TITLE@) <= u32::MAX,
        field_of(fields, FieldNames::BODY@) <= u32::MAX,
        field_of(fields, FieldNames::CREATED_AT@) <= u32::MAX,
        field_of(fields, FieldNames::TAGS@) <= u32::MAX,
        field_of(fields, FieldNames::SOURCE@) <= u32::MAX,
    ensures
        spec_numbers(fields).distinct(),
{
    lemma_field_names();
    let id = field_of(fields, FieldNames::ID@);
    let title = field_of(fields, FieldNames::TITLE@);
    let body = field_of(fields, FieldNames::BODY@);
    let created_at = field_of(fields, FieldNames::CREATED_AT@);
    let tags = field_of(fields, FieldNames::TAGS@);
    let source = field_of(fields, FieldNames::SOURCE@);
    assert(fields[id].name == FieldNames::ID@);
    assert(fields[title].name == FieldNames::TITLE@);
    assert(fields[body].name == FieldNames::BODY@);
    assert(fields[created_at].name == FieldNames::CREATED_AT@);
    assert(fields[tags].name == FieldNames::TAGS@);
    assert(fields[source].name == FieldNames::SOURCE@);
}

/// The schema of the service holds the six fields under the numbers 0 to 5.
pub proof fn lemma_document_schema_numbers()
    ensures
        has_document_fields(document_schema()),
        spec_numbers(document_schema()) == (FieldNumbers {
            id: 0,
            title: 1,
            body: 2,
            created_at: 3,
            tags: 4,
            source: 5,
        }),
{
    lemma_field_names();
    let fields = document_schema();
    assert(fields[0].name == FieldNames::ID@);
    assert(fields[1].name == FieldNames::TITLE@);
    assert(fields[2].name == FieldNames::BODY@);
    assert(fields[3].name == FieldNames::CREATED_AT@);
    assert(fields[4].name == FieldNames::TAGS@);
    assert(fields[5].name == FieldNames::SOURCE@);
    let id = field_of(fields, FieldNames::ID@);
    let title = field_of(fields, FieldNames::TITLE@);
    let body = field_of(fields, FieldNames::BODY@);
    let created_at = field_of(fields, FieldNames::CREATED_AT@);
    let tags = field_of(fields, FieldNames::TAGS@);
    let source = field_of(fields, FieldNames::SOURCE@);
    assert(fields[id].name == FieldNames::ID@);
    assert(fields[title].name == FieldNames::TITLE@);
    assert(fields[body].name == FieldNames::BODY@);
    assert(fields[created_at].name == FieldNames::CREATED_AT@);
    assert(fields[tags].name == FieldNames::TAGS@);
    assert(fields[source].name == FieldNames::SOURCE@);
}


// ---------------------------------------------------------------------------
// From a request to a document
// ---------------------------------------------------------------------------

/// What a document says, field by field.
pub struct Content {
    pub id: Seq<char>,
    pub title: Seq<char>,
    pub body: Seq<char>,
    pub created_at: Seq<char>,
    pub tags: Seq<Seq<char>>,
    pub source: Option<Seq<char>>,
}

/// A text value of a field.
pub open spec fn text_value(field: u32, text: Seq<char>) -> StoredValue {
    StoredValue { field, text: Some(text) }
}

/// The maker of the values of one field.
pub open spec fn value_in(field: u32) -> spec_fn(Seq<char>) -> StoredValue {
    |text: Seq<char>| text_value(field, text)
}

/// The view of a string.
pub open spec fn view_of() -> spec_fn(String) -> Seq<char> {
    |s: String| s@
}

/// The texts of a sequence of strings.
pub open spec fn texts_of(strings: Seq<String>) -> Seq<Seq<char>> {
    strings.map_values(view_of())
}

/// The values of the `source` field: one where there is a source, else none.
pub open spec fn source_values(field: u32, source: Option<Seq<char>>) -> Record {
    match source {
        Some(s) => seq![text_value(field, s)],
        None => Seq::empty(),
    }
}

/// The record of a document: `id`, `title`, `body` and `created_at`, then
/// one value for each tag, then the source if there is one.
pub open spec fn record_for(numbers: FieldNumbers, content: Content) -> Record {
    seq![
        text_value(numbers.id, content.id),
        text_value(numbers.title, content.title),
        text_value(numbers.body, content.body),
        text_value(numbers.created_at, content.created_at),
    ] + content.tags.map_values(value_in(numbers.tags)) + source_values(
        numbers.source,
        content.source,
    )
}

/// The identifier under which a request is indexed: its own, else `minted`.
pub open spec fn resolved_id(input: IndexDocumentInput, minted: Seq<char>) -> Seq<char> {
    match input.id {
        Some(id) => id@,
        None => minted,
    }
}

/// The source of a request, as text.
pub open spec fn source_of(input: IndexDocumentInput) -> Option<Seq<char>> {
    match input.metadata.source {
        Some(s) => Some(s@),
        None => None,
    }
}

/// What a request says once its identifier and its time are settled.
pub open spec fn content_of(input: IndexDocumentInput, id: Seq<char>, created_at: Seq<char>)
    -> Content {
    Content {
        id,
        title: input.title@,
        body: input.body@,
        created_at,
        tags: texts_of(input.metadata.tags@),
        source: source_of(input),
    }
}

/// The time stamped on a request: its own, else `now`.
pub open spec fn time_of(input: IndexDocumentInput, now: Timestamp) -> Timestamp {
    spec_stamp(input.metadata.created_at, now)
}

/// The RFC 3339 text of the time stamped on a request, where it has one.
pub open spec fn time_text(input: IndexDocumentInput, now: Timestamp) -> Option<Seq<char>> {
    rfc3339_text(time_of(input, now).seconds as int, time_of(input, now).nanos as int)
}

/// What building a document gives, for a minted identifier and a time of
/// the clock: the document of the request where the stamped time has an
/// RFC 3339 text, a validation error where it has none.
pub open spec fn built(
    outcome: Result<tantivy::TantivyDocument, AppError>,
    fields: Seq<FieldSpec>,
    input: IndexDocumentInput,
    minted: Seq<char>,
    now: Timestamp,
) -> bool {
    match outcome {
        Ok(document) => time_text(input, now) is Some && document_values(document) == record_for(
            spec_numbers(fields),
            content_of(input, resolved_id(input, minted), time_text(input, now)->0),
        ),
        Err(e) => time_text(input, now) is None && e is Validation,
    }
}

/// Builds the document of a request from an identifier to use where the
/// request has none, and the time to stamp where it has none.
pub fn document_for(
    schema: &tantivy::schema::Schema,
    input: &IndexDocumentInput,
    minted: String,
    now: Timestamp,
) -> (outcome: Result<tantivy::TantivyDocument, AppError>)
    requires
        has_document_fields(schema_fields(*schema)),
    ensures
        built(outcome, schema_fields(*schema), *input, minted@, now),
{
    let numbers = match FieldNumbers::resolve(schema) {
        Some(n) => n,
        None => {
            proof {
                assert(false);
            }
            return Err(AppError::Internal(String::from_str("schema without document fields")));
        },
    };
    let time = stamp(input.metadata.created_at, now);
    let created_at = match format_rfc3339(&time) {
        Some(text) => text,
        None => {
            return Err(AppError::Validation(String::from_str("created_at is out of range")));
        },
    };
    let id = match &input.id {
        Some(id) => id.clone(),
        None => minted,
    };
    let mut document = new_document();
    add_text(&mut document, numbers.id, id.as_str());
    add_text(&mut document, numbers.title, input.title.as_str());
    add_text(&mut document, numbers.body, input.body.as_str());
    add_text(&mut document, numbers.created_at, created_at.as_str());
    let ghost head = document_values(document);
    let ghost tags = texts_of(input.metadata.tags@);
    let mut i: usize = 0;
    while i < input.metadata.tags.len()
        invariant
            i <= input.metadata.tags.len(),
            tags == texts_of(input.metadata.tags@),
            document_values(document) == head + tags.take(i as int).map_values(
                value_in(numbers.tags),
            ),
        decreases input.metadata.tags.len() - i,
    {
        add_text(&mut document, numbers.tags, input.metadata.tags[i].as_str());
        proof {
            let done = tags.take(i as int).map_values(value_in(numbers.tags));
            let next = tags.take(i as int + 1).map_values(value_in(numbers.tags));
            assert(tags[i as int] == input.metadata.tags@[i as int]@);
            assert(next =~= done.push(text_value(numbers.tags, tags[i as int])));
            assert(head + next =~= (head + done).push(text_value(numbers.tags, tags[i as int])));
        }
        i = i + 1;
    }
    proof {
        assert(tags.take(i as int) =~= tags);
    }
    let ghost with_tags = document_values(document);
    match &input.metadata.source {
        Some(source) => {
            add_text(&mut document, numbers.source, source.as_str());
            proof {
                assert(document_values(document) =~= with_tags + source_values(
                    numbers.source,
                    source_of(*input),
                ));
            }
        },
        None => {
            proof {
                assert(document_values(document) =~= with_tags + source_values(
                    numbers.source,
                    source_of(*input),
                ));
            }
        },
    }
    proof {
        let content = content_of(*input, id@, created_at@);
        assert(head =~= seq![
            text_value(numbers.id, content.id),
            text_value(numbers.title, content.title),
            text_value(numbers.body, content.body),
            text_value(numbers.created_at, content.created_at),
        ]);
    }
    Ok(document)
}

/// What building a document gives, for an identifier that was minted if
/// the request has none, and a time that the clock gave if the request has
/// none. A time that the clock gave can be written out.
pub open spec fn built_from(
    outcome: Result<tantivy::TantivyDocument, AppError>,
    fields: Seq<FieldSpec>,
    input: IndexDocumentInput,
) -> bool {
    exists|minted: Seq<char>, now: Timestamp| #[trigger]
        built(outcome, fields, input, minted, now) && (input.metadata.created_at is None
            ==> has_text(now)) && (input.id is None ==> is_uuid_text(minted))
}

/// Builds the engine's document of a request. A request without an
/// identifier gets a fresh UUID; one without a time gets the current time.
pub fn doc_from_input(schema: &tantivy::schema::Schema, input: &IndexDocumentInput) -> (outcome:
    Result<tantivy::TantivyDocument, AppError>)
    requires
        has_document_fields(schema_fields(*schema)),
    ensures
        built_from(outcome, schema_fields(*schema), *input),
{
    let minted = match &input.id {
        Some(_) => String::new(),
        None => mint_document_id(),
    };
    let now = match input.metadata.created_at {
        Some(t) => t,
        None => now_utc(),
    };
    let outcome = document_for(schema, input, minted, now);
    proof {
        assert(built(outcome, schema_fields(*schema), *input, minted@, now) && (
        input.metadata.created_at is None ==> has_text(now)) && (input.id is None
            ==> is_uuid_text(minted@)));
    }
    outcome
}

/// The identifier a record shows: the text of the first value of the `id`
/// field, where the schema has that field and the value is a text.
pub open spec fn spec_doc_id(fields: Seq<FieldSpec>, record: Record) -> Option<Seq<char>> {
    if has_field(fields, FieldNames::ID@) {
        spec_first_text(record, field_of(fields, FieldNames::ID@) as u32)
    } else {
        None
    }
}

/// Reads the identifier of a document.
pub fn extract_doc_id(schema: &tantivy::schema::Schema, document: &tantivy::TantivyDocument) -> (id:
    Option<String>)
    ensures
        match id {
            Some(text) => spec_doc_id(schema_fields(*schema), document_values(*document)) == Some(
                text@,
            ),
            None => spec_doc_id(schema_fields(*schema), document_values(*document)) is None,
        },
{
    match lookup(schema, FieldNames::ID) {
        Some(field) => first_text(document, field),
        None => None,
    }
}


// ---------------------------------------------------------------------------
// From a record to an answer
// ---------------------------------------------------------------------------

/// A text, or a fallback where there is none.
pub open spec fn text_or(text: Option<Seq<char>>, fallback: Seq<char>) -> Seq<char> {
    match text {
        Some(t) => t,
        None => fallback,
    }
}

/// Whether an optional string holds an optional text.
pub open spec fn holds_text(string: Option<String>, text: Option<Seq<char>>) -> bool {
    match text {
        Some(t) => string matches Some(s) && s@ == t,
        None => string is None,
    }
}

/// Whether a search result shows a record: `id`, `title`, `body` and
/// `created_at` are the first texts of their fields, with the empty text
/// for a missing identifier, title or body; the score is handed through;
/// there is no snippet.
pub open spec fn is_result_of(
    result: SearchResult,
    numbers: FieldNumbers,
    record: Record,
    score_bits: u32,
) -> bool {
    &&& result.id@ == text_or(spec_first_text(record, numbers.id), ""@)
    &&& result.title@ == text_or(spec_first_text(record, numbers.title), ""@)
    &&& result.body@ == text_or(spec_first_text(record, numbers.body), ""@)
    &&& holds_text(result.created_at, spec_first_text(record, numbers.created_at))
    &&& result.score_bits == score_bits
    &&& result.snippet is None
}

/// Whether a browse entry shows a record: as a search result does, without
/// a score, and with all texts of the `tags` field in their order.
pub open spec fn is_detail_of(detail: DocumentDetail, numbers: FieldNumbers, record: Record)
    -> bool {
    &&& detail.id@ == text_or(spec_first_text(record, numbers.id), ""@)
    &&& detail.title@ == text_or(spec_first_text(record, numbers.title), ""@)
    &&& detail.body@ == text_or(spec_first_text(record, numbers.body), ""@)
    &&& holds_text(detail.created_at, spec_first_text(record, numbers.created_at))
    &&& texts_of(detail.tags@) == spec_texts(record, numbers.tags)
}

/// Reads the first text of a field, or a fallback.
fn first_text_or(document: &tantivy::TantivyDocument, field: u32, fallback: &str) -> (text: String)
    ensures
        text@ == text_or(spec_first_text(document_values(*document), field), fallback@),
{
    match first_text(document, field) {
        Some(t) => t,
        None => String::from_str(fallback),
    }
}

/// Reads all texts of a field.
fn texts_in(document: &tantivy::TantivyDocument, field: u32) -> (texts: Vec<String>)
    ensures
        texts_of(texts@) == spec_texts(document_values(*document), field),
{
    let values = all_texts(document, field);
    let ghost stored = values_of(document_values(*document), field);
    let mut texts: Vec<String> = Vec::new();
    let mut i: usize = 0;
    proof {
        assert(stored.take(0) =~= Seq::<StoredValue>::empty());
        reveal(Seq::filter);
        assert(texts_of(texts@) =~= stored.take(0).filter(is_text()).map_values(text_in()));
    }
    while i < values.len()
        invariant
            i <= values.len(),
            values@.len() == stored.len(),
            forall|j: int|
                0 <= j < values@.len() ==> match #[trigger] values@[j] {
                    Some(t) => stored[j].text == Some(t@),
                    None => stored[j].text is None,
                },
            texts_of(texts@) == stored.take(i as int).filter(is_text()).map_values(text_in()),
        decreases values.len() - i,
    {
        let ghost before = texts@;
        proof {
            assert(stored.take(i as int + 1) =~= stored.take(i as int).push(stored[i as int]));
            Seq::lemma_filter_push(stored.take(i as int), stored[i as int], is_text());
        }
        match &values[i] {
            Some(t) => {
                texts.push(t.clone());
                proof {
                    let kept = stored.take(i as int).filter(is_text());
                    assert(stored[i as int].text == Some(t@));
                    assert(texts_of(texts@) =~= texts_of(before).push(t@));
                    assert(kept.push(stored[i as int]).map_values(text_in()) =~= kept.map_values(
                        text_in(),
                    ).push(t@));
                }
            },
            None => {},
        }
        i = i + 1;
    }
    proof {
        assert(stored.take(i as int) =~= stored);
    }
    texts
}

/// Shows a record of the index as a search result with its score.
pub fn project_result(
    numbers: &FieldNumbers,
    document: &tantivy::TantivyDocument,
    score_bits: u32,
) -> (result: SearchResult)
    ensures
        is_result_of(result, *numbers, document_values(*document), score_bits),
{
    let id = first_text_or(document, numbers.id, "");
    let title = first_text_or(document, numbers.title, "");
    let body = first_text_or(document, numbers.body, "");
    let created_at = first_text(document, numbers.created_at);
    SearchResult { id, title, body, score_bits, created_at, snippet: None }
}

/// Shows a record of the index as a browse entry.
pub fn project_detail(numbers: &FieldNumbers, document: &tantivy::TantivyDocument) -> (detail:
    DocumentDetail)
    ensures
        is_detail_of(detail, *numbers, document_values(*document)),
{
    let id = first_text_or(document, numbers.id, "");
    let title = first_text_or(document, numbers.title, "");
    let body = first_text_or(document, numbers.body, "");
    let created_at = first_text(document, numbers.created_at);
    let tags = texts_in(document, numbers.tags);
    DocumentDetail { id, title, body, created_at, tags }
}

/// The numbers of the six fields under the schema of the service.
pub open spec fn document_numbers() -> FieldNumbers {
    FieldNumbers { id: 0, title: 1, body: 2, created_at: 3, tags: 4, source: 5 }
}

} // verus!
