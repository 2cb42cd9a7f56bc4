//! What the hits of a snapshot say of the records of the index.

use crate::engine::{address_of, finders, holders, shows, Address, Hit};
use crate::paging::{least, page};
use crate::schema::Record;
use vstd::multiset::Multiset;
use vstd::prelude::*;
use vstd::seq_lib::{to_multiset_build, to_multiset_contains};
use vstd::set_lib::lemma_len_subset;

verus! {

/// Whether hits stand at addresses of a snapshot, no two at the same.
pub open spec fn placed(records: Map<Address, Record>, hits: Seq<Hit>) -> bool {
    &&& forall|i: int| 0 <= i < hits.len() ==> records.dom().contains(address_of(#[trigger] hits[i]))
    &&& forall|i: int, j: int|
        0 <= i < j < hits.len() ==> address_of(#[trigger] hits[i]) != address_of(#[trigger] hits[j])
}

/// The records at which hits stand, in the order of the hits.
pub open spec fn seen(records: Map<Address, Record>, hits: Seq<Hit>) -> Seq<Record> {
    Seq::new(hits.len(), |i: int| records[address_of(hits[i])])
}

/// Whether records are drawn from a collection: none is taken more often
/// than the collection has it.
pub open spec fn drawn_from(records: Seq<Record>, live: Multiset<Record>) -> bool {
    records.to_multiset().subset_of(live)
}

/// Hits at different addresses see a record no more often than the
/// snapshot holds it.
proof fn lemma_seen_count(records: Map<Address, Record>, hits: Seq<Hit>, record: Record)
    requires
        records.dom().finite(),
        placed(records, hits),
    ensures
        holders(records, record).finite(),
        seen(records, hits).to_multiset().count(record) <= holders(records, record).len(),
    decreases hits.len(),
{
    assert(holders(records, record).subset_of(records.dom()));
    lemma_len_subset(holders(records, record), records.dom());
    if hits.len() == 0 {
        assert(seen(records, hits) =~= Seq::<Record>::empty());
        assert(seen(records, hits).to_multiset() =~= Multiset::<Record>::empty()) by {
            broadcast use vstd::seq_lib::group_to_multiset_ensures;
        }
    } else {
        let last = hits.last();
        let a = address_of(last);
        let rest = hits.drop_last();
        let fewer = records.remove(a);
        assert(placed(fewer, rest)) by {
            assert forall|i: int| 0 <= i < rest.len() implies fewer.dom().contains(
                address_of(#[trigger] rest[i]),
            ) by {
                assert(rest[i] == hits[i]);
                assert(address_of(hits[i]) != address_of(hits[hits.len() - 1]));
            }
            assert forall|i: int, j: int| 0 <= i < j < rest.len() implies address_of(
                #[trigger] rest[i],
            ) != address_of(#[trigger] rest[j]) by {
                assert(rest[i] == hits[i]);
                assert(rest[j] == hits[j]);
            }
        }
        lemma_seen_count(fewer, rest, record);
        assert(seen(fewer, rest) =~= seen(records, rest)) by {
            assert forall|i: int| 0 <= i < rest.len() implies seen(fewer, rest)[i] == seen(
                records,
                rest,
            )[i] by {
                assert(rest[i] == hits[i]);
                assert(address_of(hits[i]) != address_of(hits[hits.len() - 1]));
            }
        }
        assert(seen(records, hits) =~= seen(records, rest).push(records[a]));
        to_multiset_build(seen(records, rest), records[a]);
        if records[a] == record {
            assert(holders(records, record) =~= holders(fewer, record).insert(a));
            assert(!holders(fewer, record).contains(a));
        } else {
            assert(holders(records, record) =~= holders(fewer, record));
        }
    }
}

/// The records that hits at different addresses of a snapshot see are
/// drawn from the records that the snapshot shows.
pub proof fn lemma_seen_drawn(records: Map<Address, Record>, live: Multiset<Record>, hits: Seq<Hit>)
    requires
        shows(records, live),
        placed(records, hits),
    ensures
        drawn_from(seen(records, hits), live),
{
    assert forall|record: Record|
        seen(records, hits).to_multiset().count(record) <= #[trigger] live.count(record) by {
        lemma_seen_count(records, hits, record);
    }
}

/// A part of a list of hits at different addresses is one too.
pub proof fn lemma_placed_subrange(
    records: Map<Address, Record>,
    hits: Seq<Hit>,
    start: int,
    end: int,
)
    requires
        placed(records, hits),
        0 <= start <= end <= hits.len(),
    ensures
        placed(records, hits.subrange(start, end)),
{
    let part = hits.subrange(start, end);
    assert forall|i: int| 0 <= i < part.len() implies records.dom().contains(
        address_of(#[trigger] part[i]),
    ) by {
        assert(part[i] == hits[start + i]);
    }
    assert forall|i: int, j: int| 0 <= i < j < part.len() implies address_of(#[trigger] part[i])
        != address_of(#[trigger] part[j]) by {
        assert(part[i] == hits[start + i]);
        assert(part[j] == hits[start + j]);
    }
}

/// The page of a list of hits at different addresses is one too.
pub proof fn lemma_placed_page(
    records: Map<Address, Record>,
    hits: Seq<Hit>,
    offset: int,
    limit: int,
)
    requires
        placed(records, hits),
        0 <= offset,
        0 <= limit,
    ensures
        placed(records, page(hits, offset, limit)),
{
    let start = least(offset, hits.len() as int);
    let end = least(start + limit, hits.len() as int);
    lemma_placed_subrange(records, hits, start, end);
}

/// A snapshot without one of its records shows the collection without
/// that record.
proof fn lemma_shows_less(records: Map<Address, Record>, live: Multiset<Record>, a: Address)
    requires
        shows(records, live),
        records.dom().contains(a),
    ensures
        live.count(records[a]) >= 1,
        shows(records.remove(a), live.remove(records[a])),
{
    broadcast use vstd::multiset::group_multiset_axioms;

    let record = records[a];
    let rest = records.remove(a);
    let fewer = live.remove(record);
    assert(holders(records, record).subset_of(records.dom()));
    lemma_len_subset(holders(records, record), records.dom());
    assert(holders(records, record).contains(a));
    assert(live.count(record) == holders(records, record).len());
    assert(live.count(record) >= 1);
    assert(Multiset::singleton(record).subset_of(live));
    assert(rest.dom() =~= records.dom().remove(a));
    assert forall|other: Record| #[trigger] fewer.count(other) == holders(rest, other).len() by {
        assert(live.count(other) == holders(records, other).len());
        if other == record {
            assert(holders(rest, other) =~= holders(records, other).remove(a));
        } else {
            assert(holders(rest, other) =~= holders(records, other));
        }
    }
}

/// A snapshot that shows a collection holds as many records that pass a
/// test as the collection does.
pub proof fn lemma_found_count(
    records: Map<Address, Record>,
    live: Multiset<Record>,
    test: spec_fn(Record) -> bool,
)
    requires
        shows(records, live),
    ensures
        finders(records, test).finite(),
        finders(records, test).len() == live.filter(test).len(),
        finders(records, test).len() <= records.dom().len(),
    decreases records.dom().len(),
{
    broadcast use vstd::multiset::group_multiset_axioms;

    assert(finders(records, test).subset_of(records.dom()));
    lemma_len_subset(finders(records, test), records.dom());
    if records.dom().len() == 0 {
        records.dom().lemma_len0_is_empty();
        assert(finders(records, test) =~= Set::<Address>::empty());
        vstd::multiset::lemma_multiset_empty_len(live);
        assert(live.filter(test) =~= Multiset::<Record>::empty());
    } else {
        let a = records.dom().choose();
        let record = records[a];
        let rest = records.remove(a);
        let fewer = live.remove(record);
        lemma_shows_less(records, live, a);
        assert(rest.dom() =~= records.dom().remove(a));
        lemma_found_count(rest, fewer, test);
        if test(record) {
            assert(finders(records, test) =~= finders(rest, test).insert(a));
            assert(!finders(rest, test).contains(a));
            assert(live.filter(test) =~= fewer.filter(test).insert(record));
        } else {
            assert(finders(records, test) =~= finders(rest, test));
            assert(live.filter(test) =~= fewer.filter(test));
        }
    }
}

/// Records that are drawn from a collection and all pass a test are drawn
/// from those of the collection that pass it.
pub proof fn lemma_drawn_from_found(
    records: Seq<Record>,
    live: Multiset<Record>,
    test: spec_fn(Record) -> bool,
)
    requires
        drawn_from(records, live),
        forall|i: int| 0 <= i < records.len() ==> test(#[trigger] records[i]),
    ensures
        drawn_from(records, live.filter(test)),
{
    broadcast use vstd::multiset::group_multiset_axioms;

    assert forall|record: Record|
        records.to_multiset().count(record) <= #[trigger] live.filter(test).count(record) by {
        to_multiset_contains(records, record);
        if records.to_multiset().count(record) > 0 {
            let i = choose|i: int| 0 <= i < records.len() && records[i] == record;
            assert(test(records[i]));
            assert(records.to_multiset().count(record) <= live.count(record));
        }
    }
}

} // verus!
