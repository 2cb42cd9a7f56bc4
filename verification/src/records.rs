//! What is written is what is read: the record of a document, read back
//! field by field.

use crate::schema::{
    in_field, is_text, record_for, source_values, spec_first_text, spec_texts, text_in,
    text_value, value_in, values_of, Content, FieldNumbers, Record, StoredValue,
    document_numbers,
};
use vstd::prelude::*;

verus! {

/// A filter leaves nothing of the empty list.
proof fn lemma_filter_empty<A>(pred: spec_fn(A) -> bool)
    ensures
        Seq::<A>::empty().filter(pred) == Seq::<A>::empty(),
{
    reveal(Seq::filter);
}

/// A filter keeps a list whose items all pass.
proof fn lemma_filter_keeps<A>(s: Seq<A>, pred: spec_fn(A) -> bool)
    requires
        forall|i: int| 0 <= i < s.len() ==> pred(#[trigger] s[i]),
    ensures
        s.filter(pred) == s,
    decreases s.len(),
{
    if s.len() == 0 {
        lemma_filter_empty(pred);
        assert(s =~= Seq::<A>::empty());
    } else {
        lemma_filter_keeps(s.drop_last(), pred);
        Seq::lemma_filter_push(s.drop_last(), s.last(), pred);
        assert(s.drop_last().push(s.last()) =~= s);
    }
}

/// A filter leaves nothing of a list of which no item passes.
proof fn lemma_filter_drops<A>(s: Seq<A>, pred: spec_fn(A) -> bool)
    requires
        forall|i: int| 0 <= i < s.len() ==> !pred(#[trigger] s[i]),
    ensures
        s.filter(pred) == Seq::<A>::empty(),
    decreases s.len(),
{
    if s.len() == 0 {
        lemma_filter_empty(pred);
        assert(s =~= Seq::<A>::empty());
    } else {
        lemma_filter_drops(s.drop_last(), pred);
        Seq::lemma_filter_push(s.drop_last(), s.last(), pred);
        assert(s.drop_last().push(s.last()) =~= s);
    }
}

/// The list of an item that passes a test, the empty list of one that does
/// not.
spec fn kept<A>(item: A, pred: spec_fn(A) -> bool) -> Seq<A> {
    if pred(item) {
        seq![item]
    } else {
        Seq::empty()
    }
}

/// A filter works on a list with one more item at its end.
proof fn lemma_filter_step<A>(s: Seq<A>, item: A, pred: spec_fn(A) -> bool)
    ensures
        s.push(item).filter(pred) == s.filter(pred) + kept(item, pred),
{
    Seq::lemma_filter_push(s, item, pred);
    if pred(item) {
        assert(s.filter(pred).push(item) =~= s.filter(pred) + seq![item]);
    } else {
        assert(s.filter(pred) =~= s.filter(pred) + Seq::<A>::empty());
    }
}

/// A filter works on a list of four item by item.
proof fn lemma_filter_four<A>(a: A, b: A, c: A, d: A, pred: spec_fn(A) -> bool)
    ensures
        seq![a, b, c, d].filter(pred) == kept(a, pred) + kept(b, pred) + kept(c, pred) + kept(
            d,
            pred,
        ),
{
    let s0 = Seq::<A>::empty();
    let s1 = s0.push(a);
    let s2 = s1.push(b);
    let s3 = s2.push(c);
    let s4 = s3.push(d);
    lemma_filter_empty(pred);
    lemma_filter_step(s0, a, pred);
    lemma_filter_step(s1, b, pred);
    lemma_filter_step(s2, c, pred);
    lemma_filter_step(s3, d, pred);
    assert(s1.filter(pred) =~= kept(a, pred));
    assert(s4 =~= seq![a, b, c, d]);
}

/// The first four values of the record of a document.
spec fn head_values(numbers: FieldNumbers, content: Content) -> Record {
    seq![
        text_value(numbers.id, content.id),
        text_value(numbers.title, content.title),
        text_value(numbers.body, content.body),
        text_value(numbers.created_at, content.created_at),
    ]
}

/// The values of the tags in the record of a document.
spec fn tag_values(numbers: FieldNumbers, content: Content) -> Record {
    content.tags.map_values(value_in(numbers.tags))
}

/// The values that the record of a document holds of one field, part by
/// part.
proof fn lemma_values_of_record(numbers: FieldNumbers, content: Content, field: u32)
    ensures
        values_of(record_for(numbers, content), field) == head_values(numbers, content).filter(
            in_field(field),
        ) + tag_values(numbers, content).filter(in_field(field)) + source_values(
            numbers.source,
            content.source,
        ).filter(in_field(field)),
{
    let head = head_values(numbers, content);
    let tags = tag_values(numbers, content);
    let source = source_values(numbers.source, content.source);
    Seq::filter_distributes_over_add(head, tags, in_field(field));
    Seq::filter_distributes_over_add(head + tags, source, in_field(field));
}

/// Of the tags and the source of a record, a field other than theirs holds
/// nothing.
proof fn lemma_tail_of_other_field(numbers: FieldNumbers, content: Content, field: u32)
    requires
        field != numbers.tags,
        field != numbers.source,
    ensures
        tag_values(numbers, content).filter(in_field(field)) == Seq::<StoredValue>::empty(),
        source_values(numbers.source, content.source).filter(in_field(field)) == Seq::<
            StoredValue,
        >::empty(),
{
    lemma_filter_drops(tag_values(numbers, content), in_field(field));
    lemma_filter_drops(source_values(numbers.source, content.source), in_field(field));
}

/// The record of a document holds one value of the field of each of its
/// first four values, `id`, `title`, `body` and `created_at`: that value.
proof fn lemma_head_values(numbers: FieldNumbers, content: Content, place: int)
    requires
        numbers.distinct(),
        0 <= place < 4,
    ensures
        values_of(record_for(numbers, content), head_values(numbers, content)[place].field)
            == seq![head_values(numbers, content)[place]],
{
    let head = head_values(numbers, content);
    let field = head[place].field;
    lemma_values_of_record(numbers, content, field);
    lemma_tail_of_other_field(numbers, content, field);
    lemma_filter_four(head[0], head[1], head[2], head[3], in_field(field));
    assert(head =~= seq![head[0], head[1], head[2], head[3]]);
    assert(head.filter(in_field(field)) =~= seq![head[place]]);
    assert(values_of(record_for(numbers, content), field) =~= seq![head[place]]);
}

/// Of the first four values of a record, the fields of the tags and of the
/// source hold nothing.
proof fn lemma_head_of_other_field(numbers: FieldNumbers, content: Content, field: u32)
    requires
        field != numbers.id,
        field != numbers.title,
        field != numbers.body,
        field != numbers.created_at,
    ensures
        head_values(numbers, content).filter(in_field(field)) == Seq::<StoredValue>::empty(),
{
    lemma_filter_drops(head_values(numbers, content), in_field(field));
}

/// The record of a document holds its tags, in order, as the values of the
/// `tags` field.
proof fn lemma_tags_values(numbers: FieldNumbers, content: Content)
    requires
        numbers.distinct(),
    ensures
        values_of(record_for(numbers, content), numbers.tags) == tag_values(numbers, content),
{
    let field = numbers.tags;
    lemma_values_of_record(numbers, content, field);
    lemma_head_of_other_field(numbers, content, field);
    lemma_filter_keeps(tag_values(numbers, content), in_field(field));
    lemma_filter_drops(source_values(numbers.source, content.source), in_field(field));
    assert(values_of(record_for(numbers, content), field) =~= tag_values(numbers, content));
}

/// The record of a document holds its source, if it has one, as the one
/// value of the `source` field.
proof fn lemma_source_values(numbers: FieldNumbers, content: Content)
    requires
        numbers.distinct(),
    ensures
        values_of(record_for(numbers, content), numbers.source) == source_values(
            numbers.source,
            content.source,
        ),
{
    let field = numbers.source;
    lemma_values_of_record(numbers, content, field);
    lemma_head_of_other_field(numbers, content, field);
    lemma_filter_drops(tag_values(numbers, content), in_field(field));
    lemma_filter_keeps(source_values(numbers.source, content.source), in_field(field));
    assert(values_of(record_for(numbers, content), field) =~= source_values(
        numbers.source,
        content.source,
    ));
}

/// The texts of the `tags` field of the record of a document are its tags.
proof fn lemma_tag_texts(numbers: FieldNumbers, content: Content)
    requires
        numbers.distinct(),
    ensures
        spec_texts(record_for(numbers, content), numbers.tags) == content.tags,
{
    lemma_tags_values(numbers, content);
    lemma_filter_keeps(tag_values(numbers, content), is_text());
    assert(tag_values(numbers, content).map_values(text_in()) =~= content.tags);
}

/// What is read from the record of a document is what the document says:
/// the first text of `id`, `title`, `body` and `created_at` is the
/// document's, the first text of `source` is its source if it has one, and
/// the texts of `tags` are its tags in their order.
pub proof fn lemma_record_round_trip(numbers: FieldNumbers, content: Content)
    requires
        numbers.distinct(),
    ensures
        spec_first_text(record_for(numbers, content), numbers.id) == Some(content.id),
        spec_first_text(record_for(numbers, content), numbers.title) == Some(content.title),
        spec_first_text(record_for(numbers, content), numbers.body) == Some(content.body),
        spec_first_text(record_for(numbers, content), numbers.created_at) == Some(
            content.created_at,
        ),
        spec_first_text(record_for(numbers, content), numbers.source) == content.source,
        spec_texts(record_for(numbers, content), numbers.tags) == content.tags,
{
    lemma_head_values(numbers, content, 0);
    lemma_head_values(numbers, content, 1);
    lemma_head_values(numbers, content, 2);
    lemma_head_values(numbers, content, 3);
    lemma_source_values(numbers, content);
    lemma_tag_texts(numbers, content);
}

/// Every value of the record of a document is a text in one of the six
/// fields, and the first is the identifier.
pub proof fn lemma_record_shape(content: Content)
    ensures
        forall|i: int|
            0 <= i < record_for(document_numbers(), content).len() ==> {
                &&& (#[trigger] record_for(document_numbers(), content)[i]).field < 6
                &&& record_for(document_numbers(), content)[i].text is Some
            },
        record_for(document_numbers(), content).len() >= 4,
        record_for(document_numbers(), content)[0] == text_value(0, content.id),
{
    let numbers = document_numbers();
    let head = head_values(numbers, content);
    let tags = tag_values(numbers, content);
    let source = source_values(numbers.source, content.source);
    let record = record_for(numbers, content);
    assert(record == head + tags + source);
    assert(head.len() == 4);
    assert(record.len() == 4 + tags.len() + source.len());
    assert(record[0] == head[0]);
    assert forall|i: int| 0 <= i < record.len() implies (#[trigger] record[i]).field < 6
        && record[i].text is Some by {
        if i < 4 {
            assert(record[i] == head[i]);
        } else if i < 4 + tags.len() {
            assert(record[i] == tags[i - 4]);
        } else {
            assert(record[i] == source[i - 4 - tags.len()]);
        }
    }
}

/// The record of a document holds no identifier but the document's.
pub proof fn lemma_record_one_id(numbers: FieldNumbers, content: Content, text: Seq<char>, i: int)
    requires
        numbers.distinct(),
        0 <= i < record_for(numbers, content).len(),
        record_for(numbers, content)[i] == text_value(numbers.id, text),
    ensures
        text == content.id,
{
    let record = record_for(numbers, content);
    lemma_head_values(numbers, content, 0);
    assert(in_field(numbers.id)(record[i]));
    record.lemma_filter_contains(in_field(numbers.id), i);
    let values = values_of(record, numbers.id);
    assert(values.contains(record[i]));
    let j = choose|j: int| 0 <= j < values.len() && values[j] == record[i];
    assert(values[j] == text_value(numbers.id, content.id));
}

} // verus!
