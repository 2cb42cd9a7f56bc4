//! What holds of the service as a whole.

use crate::engine::{after_delete, after_upsert, has_term, has_value, indexable, survives};
use crate::clock::rfc3339_text;
use crate::handle::{
    details_show, found_in, listed_in, results_show, upsert_done, upserted,
};
use crate::models::{DocumentDetail, SearchResult};
use crate::reading::drawn_from;
use crate::records::{lemma_record_one_id, lemma_record_round_trip};
use crate::schema::{
    is_detail_of, is_result_of, source_of, texts_of,
};
use crate::index_manager::{delete_in, kept_apart, starts_from, upsert_in, IndexManager};
use crate::ids::{hyphenated, lemma_hyphenated_injective, TenantId};
use crate::index_manager::spec_index_path;
use crate::models::{IndexDocumentInput, Timestamp};
use crate::records::lemma_record_shape;
use crate::schema::{
    content_of, document_numbers, in_field, record_for, spec_first_text, text_value, time_text,
    values_of, Record,
};
use crate::paging::rest_len;
use vstd::seq_lib::{to_multiset_contains, to_multiset_len, to_multiset_remove};
use vstd::multiset::Multiset;
use vstd::prelude::*;

verus! {

/// After a deletion no record is left that the index finds under the
/// identifier.
pub proof fn law_delete_leaves_none(
    live: Multiset<Record>,
    id_field: u32,
    id: Seq<char>,
    record: Record,
)
    requires
        has_term(record, id_field, id),
    ensures
        after_delete(live, id_field, id).count(record) == 0,
{
    assert(!survives(id_field, id)(record));
}

/// After an upsert the written record is the only one that the index finds
/// under its identifier, and it is there once.
pub proof fn law_upsert_leaves_one(
    live: Multiset<Record>,
    id_field: u32,
    id: Seq<char>,
    written: Record,
    record: Record,
)
    requires
        has_term(record, id_field, id),
    ensures
        after_upsert(live, id_field, id, written).count(record) == if record == written {
            1nat
        } else {
            0nat
        },
{
    assert(!survives(id_field, id)(record));
    assert(after_delete(live, id_field, id).count(record) == 0);
}

/// Whether a record is that of a request under an identifier, stamped with
/// the request's time or with some time of the clock.
pub open spec fn record_of_request(input: IndexDocumentInput, id: Seq<char>, record: Record)
    -> bool {
    exists|now: Timestamp| #[trigger]
        time_text(input, now) is Some && record == record_for(
            document_numbers(),
            content_of(input, id, time_text(input, now)->0),
        )
}

/// Whether a record is the only one of a collection that the index finds
/// under an identifier, and is there once.
pub open spec fn only_under(live: Multiset<Record>, id: Seq<char>, record: Record) -> bool {
    &&& has_term(record, document_numbers().id, id)
    &&& live.count(record) == 1
    &&& forall|other: Record|
        has_term(other, document_numbers().id, id) && other != record ==> #[trigger] live.count(
            other,
        ) == 0
}

/// The record of a request holds the identifier as a value of the `id`
/// field.
pub proof fn lemma_record_has_id(content: crate::schema::Content)
    ensures
        has_value(record_for(document_numbers(), content), document_numbers().id, content.id),
{
    lemma_record_shape(content);
    assert(record_for(document_numbers(), content)[0] == text_value(0, content.id));
}

/// Identifiers are unique within a tenant: after a successful upsert under
/// an identifier that the index takes as a term, the tenant has exactly
/// one record under that identifier, the record of the request. Whatever
/// stood under the identifier before is gone.
pub proof fn law_id_unique(
    before: IndexManager,
    after: IndexManager,
    tenant: TenantId,
    input: IndexDocumentInput,
    id: Seq<char>,
)
    requires
        upsert_in(before, after, tenant, input, id),
        indexable(id),
    ensures
        exists|record: Record| #[trigger]
            record_of_request(input, id, record) && only_under(
                after.documents(tenant),
                id,
                record,
            ),
{
    let live = choose|live: Multiset<Record>| #[trigger]
        starts_from(before, tenant, live) && upsert_done(
            live,
            after.documents(tenant),
            input,
            id,
        );
    let (minted, now) = choose|minted: Seq<char>, now: Timestamp| #[trigger]
        upserted(live, after.documents(tenant), input, id, minted, now);
    let content = content_of(input, id, time_text(input, now)->0);
    let record = record_for(document_numbers(), content);
    lemma_record_has_id(content);
    assert(time_text(input, now) is Some);
    assert(record_of_request(input, id, record));
    law_upsert_leaves_one(live, document_numbers().id, id, record, record);
    assert forall|other: Record|
        has_term(other, document_numbers().id, id) && other != record implies #[trigger] after.documents(
        tenant,
    ).count(other) == 0 by {
        law_upsert_leaves_one(live, document_numbers().id, id, record, other);
    }
    assert(only_under(after.documents(tenant), id, record));
}

/// The last write wins: after two successful upserts under one identifier,
/// the tenant's only record under it is that of the second request.
pub proof fn law_last_write_wins(
    start: IndexManager,
    between: IndexManager,
    end: IndexManager,
    tenant: TenantId,
    first: IndexDocumentInput,
    second: IndexDocumentInput,
    id: Seq<char>,
)
    requires
        upsert_in(start, between, tenant, first, id),
        upsert_in(between, end, tenant, second, id),
        indexable(id),
    ensures
        exists|record: Record| #[trigger]
            record_of_request(second, id, record) && only_under(end.documents(tenant), id, record),
{
    law_id_unique(between, end, tenant, second, id);
}

/// After a successful delete the tenant has no record under the
/// identifier.
pub proof fn law_deleted_is_gone(
    before: IndexManager,
    after: IndexManager,
    tenant: TenantId,
    id: Seq<char>,
    record: Record,
)
    requires
        delete_in(before, after, tenant, id),
        has_term(record, document_numbers().id, id),
    ensures
        after.documents(tenant).count(record) == 0,
{
    let live = choose|live: Multiset<Record>| #[trigger]
        starts_from(before, tenant, live) && after.documents(tenant) == after_delete(
            live,
            document_numbers().id,
            id,
        );
    law_delete_leaves_none(live, document_numbers().id, id, record);
}

/// Tenants are kept apart: what a tenant holds after a write to another
/// tenant is what it held before.
pub proof fn law_isolation(
    before: IndexManager,
    after: IndexManager,
    writer: TenantId,
    reader: TenantId,
)
    requires
        kept_apart(before, after, writer),
        reader != writer,
        before.has_tenant(reader),
    ensures
        after.has_tenant(reader),
        after.documents(reader) == before.documents(reader),
{
    assert(after.has_tenant(reader) == before.has_tenant(reader));
}

/// A record whose first text of a field is `text` holds `text` as a value
/// of the field.
pub proof fn lemma_first_text_is_value(record: Record, field: u32, text: Seq<char>)
    requires
        spec_first_text(record, field) == Some(text),
    ensures
        has_value(record, field, text),
{
    let values = values_of(record, field);
    assert(values.len() > 0);
    let first = values[0];
    record.lemma_filter_pred(in_field(field), 0);
    assert(in_field(field)(first));
    assert(first == text_value(field, text));
    assert(values.contains(first));
    record.lemma_filter_contains_rev(in_field(field), first);
    let i = choose|i: int| 0 <= i < record.len() && record[i] == first;
    assert(record[i] == text_value(field, text));
}

/// A list that has an item at two places has it twice at least.
pub proof fn lemma_two_copies<A>(items: Seq<A>, i: int, j: int)
    requires
        0 <= i < items.len(),
        0 <= j < items.len(),
        i != j,
        items[i] == items[j],
    ensures
        items.to_multiset().count(items[i]) >= 2,
{
    to_multiset_remove(items, i);
    let rest = items.remove(i);
    if j < i {
        assert(rest[j] == items[j]);
    } else {
        assert(rest[j - 1] == items[j]);
    }
    assert(rest.contains(items[i]));
    to_multiset_contains(rest, items[i]);
}

/// Whether every record of a collection has an identifier: a text as the
/// first value of its `id` field.
pub open spec fn all_named(live: Multiset<Record>) -> bool {
    forall|record: Record|
        #[trigger] live.count(record) > 0 ==> spec_first_text(record, document_numbers().id)
            is Some
}

/// No identifier shows twice in one answer: where every record of a tenant
/// has an identifier and one record stands under a given one, a search
/// gives at most one result with that identifier.
pub proof fn law_search_unique(
    results: Seq<SearchResult>,
    live: Multiset<Record>,
    id: Seq<char>,
    record: Record,
    i: int,
    j: int,
)
    requires
        found_in(results, live),
        only_under(live, id, record),
        all_named(live),
        0 <= i < results.len(),
        0 <= j < results.len(),
        results[i].id@ == id,
        results[j].id@ == id,
    ensures
        i == j,
{
    let records = choose|records: Seq<Record>| #[trigger]
        results_show(results, records) && drawn_from(records, live);
    let numbers = document_numbers();
    assert(is_result_of(results[i], numbers, records[i], results[i].score_bits));
    assert(is_result_of(results[j], numbers, records[j], results[j].score_bits));
    assert(records.contains(records[i]));
    assert(records.contains(records[j]));
    to_multiset_contains(records, records[i]);
    to_multiset_contains(records, records[j]);
    assert(live.count(records[i]) > 0);
    assert(live.count(records[j]) > 0);
    lemma_first_text_is_value(records[i], numbers.id, id);
    lemma_first_text_is_value(records[j], numbers.id, id);
    assert(records[i] == record);
    assert(records[j] == record);
    if i != j {
        lemma_two_copies(records, i, j);
        assert(records.to_multiset().count(record) <= live.count(record));
    }
}

/// Where every record of a tenant has an identifier and none stands under
/// a given one, no result of a search shows that identifier.
pub proof fn law_search_none(
    results: Seq<SearchResult>,
    live: Multiset<Record>,
    id: Seq<char>,
    i: int,
)
    requires
        found_in(results, live),
        indexable(id),
        forall|record: Record|
            has_term(record, document_numbers().id, id) ==> #[trigger] live.count(record) == 0,
        all_named(live),
        0 <= i < results.len(),
    ensures
        results[i].id@ != id,
{
    let records = choose|records: Seq<Record>| #[trigger]
        results_show(results, records) && drawn_from(records, live);
    let numbers = document_numbers();
    assert(is_result_of(results[i], numbers, records[i], results[i].score_bits));
    assert(records.contains(records[i]));
    to_multiset_contains(records, records[i]);
    assert(live.count(records[i]) > 0);
    if results[i].id@ == id {
        lemma_first_text_is_value(records[i], numbers.id, id);
    }
}

/// What is written is what is read: an entry or a result that shows the
/// record of a request has the request's identifier, title and body; an
/// entry has its tags in their order; the time is the RFC 3339 text of the
/// time that the request supplied, where it supplied one; and the record
/// holds the request's source.
pub proof fn law_round_trip(
    input: IndexDocumentInput,
    id: Seq<char>,
    record: Record,
    detail: DocumentDetail,
    result: SearchResult,
)
    requires
        record_of_request(input, id, record),
    ensures
        is_detail_of(detail, document_numbers(), record) ==> {
            &&& detail.id@ == id
            &&& detail.title@ == input.title@
            &&& detail.body@ == input.body@
            &&& texts_of(detail.tags@) == texts_of(input.metadata.tags@)
            &&& detail.created_at is Some
            &&& input.metadata.created_at matches Some(at) ==> rfc3339_text(
                at.seconds as int,
                at.nanos as int,
            ) == Some(detail.created_at->0@)
        },
        is_result_of(result, document_numbers(), record, result.score_bits) ==> {
            &&& result.id@ == id
            &&& result.title@ == input.title@
            &&& result.body@ == input.body@
            &&& result.created_at is Some
            &&& input.metadata.created_at matches Some(at) ==> rfc3339_text(
                at.seconds as int,
                at.nanos as int,
            ) == Some(result.created_at->0@)
        },
        spec_first_text(record, document_numbers().source) == source_of(input),
{
    let now = choose|now: Timestamp| #[trigger]
        time_text(input, now) is Some && record == record_for(
            document_numbers(),
            content_of(input, id, time_text(input, now)->0),
        );
    let content = content_of(input, id, time_text(input, now)->0);
    lemma_record_round_trip(document_numbers(), content);
}

/// What was written is there: after a successful upsert the tenant holds
/// the record of the request.
pub proof fn law_written_is_kept(
    before: IndexManager,
    after: IndexManager,
    tenant: TenantId,
    input: IndexDocumentInput,
    id: Seq<char>,
)
    requires
        upsert_in(before, after, tenant, input, id),
    ensures
        exists|record: Record| #[trigger]
            record_of_request(input, id, record) && after.documents(tenant).count(record) >= 1,
        after.documents(tenant).len() >= 1,
{
    let live = choose|live: Multiset<Record>| #[trigger]
        starts_from(before, tenant, live) && upsert_done(
            live,
            after.documents(tenant),
            input,
            id,
        );
    let (minted, now) = choose|minted: Seq<char>, now: Timestamp| #[trigger]
        upserted(live, after.documents(tenant), input, id, minted, now);
    let content = content_of(input, id, time_text(input, now)->0);
    let record = record_for(document_numbers(), content);
    assert(time_text(input, now) is Some);
    assert(record_of_request(input, id, record));
    assert(after.documents(tenant).count(record) >= 1);
    assert(after.documents(tenant).len() >= 1) by {
        broadcast use vstd::multiset::group_multiset_axioms;

    }
}

/// A browse page that is as long as the index is large shows every record
/// of the index.
pub proof fn law_browse_shows_all(
    details: Seq<DocumentDetail>,
    live: Multiset<Record>,
    record: Record,
)
    requires
        listed_in(details, live),
        details.len() == live.len(),
        live.count(record) >= 1,
    ensures
        exists|i: int|
            0 <= i < details.len() && is_detail_of(#[trigger] details[i], document_numbers(), record),
{
    broadcast use vstd::multiset::group_multiset_axioms;

    let records = choose|records: Seq<Record>| #[trigger]
        details_show(details, records) && drawn_from(records, live);
    let shown = records.to_multiset();
    to_multiset_len(records);
    assert(shown.subset_of(live));
    assert(live.sub(shown).len() == 0);
    assert(live.sub(shown).count(record) == 0);
    assert(shown.count(record) >= 1);
    to_multiset_contains(records, record);
    let i = choose|i: int| 0 <= i < records.len() && records[i] == record;
    assert(is_detail_of(details[i], document_numbers(), records[i]));
}

/// The first page of a browse holds the whole index where the index is no
/// larger than the page.
pub proof fn lemma_browse_len_all(limit: usize, total: int)
    requires
        0 <= total <= limit,
    ensures
        rest_len(limit as int, 0, total) == total,
{
}

/// Whether no two records of a collection share an identifier, and no
/// record is there twice.
pub open spec fn ids_unique(live: Multiset<Record>) -> bool {
    &&& forall|record: Record| #[trigger] live.count(record) <= 1
    &&& forall|one: Record, other: Record, id: Seq<char>|
        #![trigger live.count(one), live.count(other), has_value(one, document_numbers().id, id)]
        live.count(one) > 0 && live.count(other) > 0 && one != other && has_value(
            one,
            document_numbers().id,
            id,
        ) ==> !has_value(other, document_numbers().id, id)
}

/// A write touches no record but those under its identifier: after an
/// upsert every record that the index does not find under the identifier
/// is there as often as before, but for the written one, which is there
/// once more.
pub proof fn law_upsert_keeps_others(
    live: Multiset<Record>,
    id: Seq<char>,
    written: Record,
    record: Record,
)
    requires
        !has_term(record, document_numbers().id, id),
    ensures
        after_upsert(live, document_numbers().id, id, written).count(record) == live.count(record)
            + if record == written {
            1nat
        } else {
            0nat
        },
{
    assert(survives(document_numbers().id, id)(record));
}

/// Identifiers stay unique: where no two records of a tenant share an
/// identifier, that is still so after the upsert of a request under an
/// identifier that the index takes as a term.
pub proof fn law_ids_stay_unique(
    before: Multiset<Record>,
    after: Multiset<Record>,
    input: IndexDocumentInput,
    id: Seq<char>,
)
    requires
        ids_unique(before),
        upsert_done(before, after, input, id),
        indexable(id),
    ensures
        ids_unique(after),
{
    let field = document_numbers().id;
    let (minted, now) = choose|minted: Seq<char>, now: Timestamp| #[trigger]
        upserted(before, after, input, id, minted, now);
    let content = content_of(input, id, time_text(input, now)->0);
    let written = record_for(document_numbers(), content);
    lemma_record_has_id(content);
    assert forall|record: Record| #[trigger] after.count(record) <= 1 by {
        if has_term(record, field, id) {
            law_upsert_leaves_one(before, field, id, written, record);
        } else {
            law_upsert_keeps_others(before, id, written, record);
            assert(before.count(record) <= 1);
        }
    }
    assert forall|one: Record, other: Record, text: Seq<char>|
        #![trigger after.count(one), after.count(other), has_value(one, field, text)]
        after.count(one) > 0 && after.count(other) > 0 && one != other && has_value(
            one,
            field,
            text,
        ) implies !has_value(other, field, text) by {
        lemma_shared_id(before, after, id, content, one, other, text);
    }
}

/// After the upsert of a record under an identifier, two records do not
/// share an identifier if none did before.
proof fn lemma_shared_id(
    before: Multiset<Record>,
    after: Multiset<Record>,
    id: Seq<char>,
    content: crate::schema::Content,
    one: Record,
    other: Record,
    text: Seq<char>,
)
    requires
        ids_unique(before),
        indexable(id),
        content.id == id,
        after == after_upsert(
            before,
            document_numbers().id,
            id,
            record_for(document_numbers(), content),
        ),
        after.count(one) > 0,
        after.count(other) > 0,
        one != other,
        has_value(one, document_numbers().id, text),
    ensures
        !has_value(other, document_numbers().id, text),
{
    let field = document_numbers().id;
    let written = record_for(document_numbers(), content);
    lemma_record_has_id(content);
    if !has_value(other, field, text) {
    } else if one == written || other == written {
        // the shared identifier is that of the written record
        let i = choose|i: int| 0 <= i < written.len() && #[trigger] written[i] == text_value(
            field,
            text,
        );
        lemma_record_one_id(document_numbers(), content, text, i);
        if one == written {
            law_upsert_leaves_one(before, field, id, written, other);
        } else {
            law_upsert_leaves_one(before, field, id, written, one);
        }
    } else {
        if has_term(one, field, id) {
            law_upsert_leaves_one(before, field, id, written, one);
        } else {
            law_upsert_keeps_others(before, id, written, one);
        }
        if has_term(other, field, id) {
            law_upsert_leaves_one(before, field, id, written, other);
        } else {
            law_upsert_keeps_others(before, id, written, other);
        }
        assert(before.count(one) > 0);
        assert(before.count(other) > 0);
    }
}

/// Whether a collection has a record that the index finds under an
/// identifier.
pub open spec fn is_live(live: Multiset<Record>, id: Seq<char>) -> bool {
    exists|record: Record| #[trigger]
        live.count(record) > 0 && has_term(record, document_numbers().id, id)
}

/// A write replaces or adds: where no two records share an identifier, an
/// upsert under an identifier that stood for a record leaves the number of
/// records as it was, and an upsert under a new identifier adds one.
pub proof fn law_upsert_count(live: Multiset<Record>, id: Seq<char>, written: Record)
    requires
        ids_unique(live),
    ensures
        after_upsert(live, document_numbers().id, id, written).len() == live.len() + if is_live(
            live,
            id,
        ) {
            0int
        } else {
            1int
        },
{
    broadcast use vstd::multiset::group_multiset_axioms;

    let field = document_numbers().id;
    let left = after_delete(live, field, id);
    if is_live(live, id) {
        let gone = choose|record: Record| #[trigger]
            live.count(record) > 0 && has_term(record, field, id);
        assert forall|record: Record| left.count(record) == live.remove(gone).count(record) by {
            if record == gone {
                assert(!survives(field, id)(record));
                assert(live.count(gone) <= 1);
            } else if has_term(record, field, id) {
                assert(!survives(field, id)(record));
                if live.count(record) > 0 {
                    assert(has_value(gone, field, id));
                    assert(!has_value(record, field, id));
                }
            } else {
                assert(survives(field, id)(record));
            }
        }
        assert(left =~= live.remove(gone));
        assert(Multiset::singleton(gone).subset_of(live));
    } else {
        assert forall|record: Record| left.count(record) == live.count(record) by {
            if has_term(record, field, id) {
                assert(!survives(field, id)(record));
                assert(live.count(record) == 0);
            } else {
                assert(survives(field, id)(record));
            }
        }
        assert(left =~= live);
    }
}

/// An upsert keeps every record named: where every record of a tenant
/// has an identifier, that is still so after an upsert.
pub proof fn law_upsert_keeps_named(
    before: Multiset<Record>,
    after: Multiset<Record>,
    input: IndexDocumentInput,
    id: Seq<char>,
)
    requires
        all_named(before),
        upsert_done(before, after, input, id),
    ensures
        all_named(after),
{
    broadcast use vstd::multiset::group_multiset_axioms;

    let field = document_numbers().id;
    let (minted, now) = choose|minted: Seq<char>, now: Timestamp| #[trigger]
        upserted(before, after, input, id, minted, now);
    let content = content_of(input, id, time_text(input, now)->0);
    let written = record_for(document_numbers(), content);
    lemma_record_round_trip(document_numbers(), content);
    assert forall|record: Record| #[trigger] after.count(record) > 0 implies spec_first_text(
        record,
        field,
    ) is Some by {
        if record != written {
            assert(after_delete(before, field, id).count(record) <= before.count(record));
            assert(before.count(record) > 0);
        }
    }
}

/// A delete keeps every record named: where every record of a tenant has
/// an identifier, that is still so after a delete.
pub proof fn law_delete_keeps_named(before: Multiset<Record>, id: Seq<char>)
    requires
        all_named(before),
    ensures
        all_named(after_delete(before, document_numbers().id, id)),
{
    broadcast use vstd::multiset::group_multiset_axioms;

    let field = document_numbers().id;
    let after = after_delete(before, field, id);
    assert forall|record: Record| #[trigger] after.count(record) > 0 implies spec_first_text(
        record,
        field,
    ) is Some by {
        assert(after.count(record) <= before.count(record));
        assert(before.count(record) > 0);
    }
}

/// No identifier shows twice on one page: where every record of a tenant
/// has an identifier and one record stands under a given one, a browse
/// page has at most one entry with that identifier.
pub proof fn law_browse_unique(
    details: Seq<DocumentDetail>,
    live: Multiset<Record>,
    id: Seq<char>,
    record: Record,
    i: int,
    j: int,
)
    requires
        listed_in(details, live),
        only_under(live, id, record),
        all_named(live),
        0 <= i < details.len(),
        0 <= j < details.len(),
        details[i].id@ == id,
        details[j].id@ == id,
    ensures
        i == j,
{
    let records = choose|records: Seq<Record>| #[trigger]
        details_show(details, records) && drawn_from(records, live);
    let numbers = document_numbers();
    assert(is_detail_of(details[i], numbers, records[i]));
    assert(is_detail_of(details[j], numbers, records[j]));
    assert(records.contains(records[i]));
    assert(records.contains(records[j]));
    to_multiset_contains(records, records[i]);
    to_multiset_contains(records, records[j]);
    assert(live.count(records[i]) > 0);
    assert(live.count(records[j]) > 0);
    lemma_first_text_is_value(records[i], numbers.id, id);
    lemma_first_text_is_value(records[j], numbers.id, id);
    assert(records[i] == record);
    assert(records[j] == record);
    if i != j {
        lemma_two_copies(records, i, j);
        assert(records.to_multiset().count(record) <= live.count(record));
    }
}

} // verus!
