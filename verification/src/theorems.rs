//! What holds of the collection over several operations, stated over the
//! sequences and records that the operations' own contracts speak of.

use vstd::prelude::*;

use crate::command::{CommandView, ReplyView};
use crate::error::RepositoryErrorView;
use crate::list::{apply, lemma_without_first_at, position, without_first};
use crate::repository::{decoded, faithful, locating, replacing, Record};

verus! {

/// Whether every item up to and including the one at `place` is a record.
pub open spec fn records_up_to<T: Record>(items: Seq<Seq<char>>, place: int) -> bool {
    forall|at: int| 0 <= at <= place && at < items.len() ==> (#[trigger] T::value_of(
        items[at],
    )) is Some
}

/// Whether every item is a record.
pub open spec fn all_records<T: Record>(items: Seq<Seq<char>>) -> bool {
    records_up_to::<T>(items, items.len() - 1)
}

/// The list after one append for each of `values`, in their order.
pub open spec fn appended<T: Record>(items: Seq<Seq<char>>, values: Seq<T::V>) -> Seq<Seq<char>>
    decreases values.len(),
{
    if values.len() == 0 {
        items
    } else {
        appended::<T>(items, values.drop_last()).push(T::text_of(values.last()))
    }
}

/// The records of two runs of items, one after the other, are the records
/// of the first followed by those of the second.
pub proof fn lemma_decoded_concat<T: Record>(head: Seq<Seq<char>>, tail: Seq<Seq<char>>)
    ensures
        decoded::<T>(head + tail) == decoded::<T>(head) + decoded::<T>(tail),
    decreases tail.len(),
{
    if tail.len() == 0 {
        assert(head + tail == head);
        assert(decoded::<T>(head) + decoded::<T>(tail) == decoded::<T>(head));
    } else {
        let whole = head + tail;
        assert(whole.drop_last() == head + tail.drop_last());
        assert(whole.last() == tail.last());
        lemma_decoded_concat::<T>(head, tail.drop_last());
        match T::value_of(tail.last()) {
            Some(value) => {
                assert(decoded::<T>(head) + decoded::<T>(tail.drop_last()).push(value) == (
                decoded::<T>(head) + decoded::<T>(tail.drop_last())).push(value));
            },
            None => {},
        }
    }
}

/// Where every item is a record, the listing has one record for each item,
/// at the item's place.
pub proof fn lemma_decoded_aligned<T: Record>(items: Seq<Seq<char>>)
    requires
        records_up_to::<T>(items, items.len() - 1),
    ensures
        decoded::<T>(items).len() == items.len(),
        forall|at: int|
            0 <= at < items.len() ==> T::value_of(items[at]) == Some(
                #[trigger] decoded::<T>(items)[at],
            ),
    decreases items.len(),
{
    if items.len() > 0 {
        let front = items.drop_last();
        assert forall|at: int| 0 <= at <= front.len() - 1 && at < front.len() implies (
        #[trigger] T::value_of(front[at])) is Some by {
            assert(front[at] == items[at]);
        }
        lemma_decoded_aligned::<T>(front);
        assert(T::value_of(items[items.len() - 1]) is Some);
        assert forall|at: int| 0 <= at < items.len() implies T::value_of(items[at]) == Some(
            #[trigger] decoded::<T>(items)[at],
        ) by {
            if at < front.len() {
                assert(front[at] == items[at]);
                assert(decoded::<T>(items)[at] == decoded::<T>(front)[at]);
            }
        }
    }
}

/// Reading the text of a record and writing what was read gives the text
/// again, for every record that `Record::encode` accepts: those whose text
/// stands for them.
pub proof fn text_round_trips<T: Record>(value: T::V)
    requires
        faithful::<T>(value),
    ensures
        T::value_of(T::text_of(value)) matches Some(back) && T::text_of(back) == T::text_of(
            value,
        ),
{
}

/// What is left after a removal by value was there before.
pub proof fn lemma_without_first_keeps(items: Seq<Seq<char>>, value: Seq<char>, limit: nat)
    ensures
        forall|at: int|
            0 <= at < without_first(items, value, limit).len() ==> items.contains(
                #[trigger] without_first(items, value, limit)[at],
            ),
    decreases items.len(),
{
    let kept = without_first(items, value, limit);
    if items.len() == 0 || limit == 0 {
    } else {
        let rest = items.drop_first();
        let fewer = if items[0] == value {
            (limit - 1) as nat
        } else {
            limit
        };
        lemma_without_first_keeps(rest, value, fewer);
        assert forall|at: int| 0 <= at < kept.len() implies items.contains(#[trigger] kept[at]) by {
            if items[0] != value && at == 0 {
                assert(kept[0] == items[0]);
            } else {
                let inner = if items[0] == value {
                    at
                } else {
                    at - 1
                };
                let item = without_first(rest, value, fewer)[inner];
                assert(kept[at] == item);
                assert(rest.contains(item));
                let found = choose|found: int| 0 <= found < rest.len() && rest[found] == item;
                assert(items[found + 1] == item);
            }
        }
    }
}

/// A list of records stays one under every write of the repository: an
/// append or an overwrite with the text of a record that stands for it,
/// and a removal.
pub proof fn writes_keep_records<T: Record>(
    items: Seq<Seq<char>>,
    place: int,
    value: T::V,
    gone: Seq<char>,
    limit: nat,
)
    requires
        all_records::<T>(items),
        faithful::<T>(value),
    ensures
        all_records::<T>(items.push(T::text_of(value))),
        0 <= place < items.len() ==> all_records::<T>(items.update(place, T::text_of(value))),
        all_records::<T>(without_first(items, gone, limit)),
{
    let text = T::text_of(value);
    let longer = items.push(text);
    assert forall|at: int| 0 <= at <= longer.len() - 1 && at < longer.len() implies (
    #[trigger] T::value_of(longer[at])) is Some by {
        if at < items.len() {
            assert(longer[at] == items[at]);
        }
    }
    if 0 <= place < items.len() {
        let changed = items.update(place, text);
        assert forall|at: int| 0 <= at <= changed.len() - 1 && at < changed.len() implies (
        #[trigger] T::value_of(changed[at])) is Some by {
            if at != place {
                assert(changed[at] == items[at]);
            }
        }
    }
    let kept = without_first(items, gone, limit);
    lemma_without_first_keeps(items, gone, limit);
    assert forall|at: int| 0 <= at <= kept.len() - 1 && at < kept.len() implies (
    #[trigger] T::value_of(kept[at])) is Some by {
        assert(items.contains(kept[at]));
        let found = choose|found: int| 0 <= found < items.len() && items[found] == kept[at];
        assert(T::value_of(items[found]) is Some);
    }
}

/// List-all after any run of appends returns what it returned before,
/// followed by the appended records in the order in which they were
/// appended, where the text of each stands for it again.
pub proof fn appends_are_listed_in_order<T: Record>(items: Seq<Seq<char>>, values: Seq<T::V>)
    requires
        forall|at: int| 0 <= at < values.len() ==> faithful::<T>(#[trigger] values[at]),
    ensures
        appended::<T>(items, values).len() == items.len() + values.len(),
        decoded::<T>(appended::<T>(items, values)) == decoded::<T>(items) + values,
    decreases values.len(),
{
    if values.len() == 0 {
        assert(decoded::<T>(items) + values == decoded::<T>(items));
    } else {
        let earlier = values.drop_last();
        assert forall|at: int| 0 <= at < earlier.len() implies faithful::<T>(
            #[trigger] earlier[at],
        ) by {
            assert(earlier[at] == values[at]);
        }
        appends_are_listed_in_order::<T>(items, earlier);
        let before = appended::<T>(items, earlier);
        let after = before.push(T::text_of(values.last()));
        assert(after.drop_last() == before);
        assert(faithful::<T>(values[values.len() - 1]));
        assert(decoded::<T>(after) == decoded::<T>(before).push(values.last()));
        assert((decoded::<T>(items) + earlier).push(values.last()) == decoded::<T>(items)
            + values);
    }
}

/// Replace-at followed by list-all shows the new record at the index and
/// every other record where it was, where the items up to the index are
/// records and the text of the new record stands for it again.
pub proof fn replace_shows_record<T: Record>(items: Seq<Seq<char>>, index: int, value: T::V)
    requires
        position(items.len(), index) is Some,
        records_up_to::<T>(items, position(items.len(), index)->Some_0),
        faithful::<T>(value),
    ensures
        ({
            let place = position(items.len(), index)->Some_0;
            &&& place < decoded::<T>(items).len()
            &&& decoded::<T>(items.update(place, T::text_of(value))) == decoded::<T>(
                items,
            ).update(place, value)
        }),
{
    let place = position(items.len(), index)->Some_0;
    let head = items.take(place);
    let tail = items.skip(place + 1);
    let old_middle = seq![items[place]];
    let new_middle = seq![T::text_of(value)];
    assert(items == head + old_middle + tail);
    assert(items.update(place, T::text_of(value)) == head + new_middle + tail);
    lemma_decoded_concat::<T>(head + old_middle, tail);
    lemma_decoded_concat::<T>(head, old_middle);
    lemma_decoded_concat::<T>(head + new_middle, tail);
    lemma_decoded_concat::<T>(head, new_middle);
    assert forall|at: int| 0 <= at <= head.len() - 1 && at < head.len() implies (
    #[trigger] T::value_of(head[at])) is Some by {
        assert(head[at] == items[at]);
    }
    lemma_decoded_aligned::<T>(head);
    assert(T::value_of(items[place]) is Some);
    let old_value = T::value_of(items[place])->Some_0;
    assert(old_middle.drop_last() == Seq::<Seq<char>>::empty());
    assert(new_middle.drop_last() == Seq::<Seq<char>>::empty());
    assert(decoded::<T>(old_middle) == seq![old_value]) by {
        assert(decoded::<T>(old_middle.drop_last()) == Seq::<T::V>::empty());
        assert(old_middle.last() == items[place]);
    }
    assert(decoded::<T>(new_middle) == seq![value]) by {
        assert(decoded::<T>(new_middle.drop_last()) == Seq::<T::V>::empty());
        assert(new_middle.last() == T::text_of(value));
    }
    assert((decoded::<T>(head) + seq![old_value] + decoded::<T>(tail)).update(place, value)
        == decoded::<T>(head) + seq![value] + decoded::<T>(tail));
}

/// Delete-at followed by list-all shows one record less: the one that was
/// at the index has gone and the others keep their order, where no other
/// item is equal to the one at the index and the items up to the index are
/// records.
pub proof fn delete_removes_record<T: Record>(items: Seq<Seq<char>>, index: int)
    requires
        position(items.len(), index) is Some,
        forall|other: int|
            0 <= other < items.len() && other != position(items.len(), index)->Some_0
                ==> #[trigger] items[other] != items[position(items.len(), index)->Some_0],
        records_up_to::<T>(items, position(items.len(), index)->Some_0),
    ensures
        ({
            let place = position(items.len(), index)->Some_0;
            let after = without_first(items, items[place], 1);
            &&& after == items.remove(place)
            &&& place < decoded::<T>(items).len()
            &&& decoded::<T>(after) == decoded::<T>(items).remove(place)
            &&& decoded::<T>(after).len() == decoded::<T>(items).len() - 1
        }),
{
    let place = position(items.len(), index)->Some_0;
    lemma_without_first_at(items, place);
    let head = items.take(place);
    let tail = items.skip(place + 1);
    let middle = seq![items[place]];
    assert(items == head + middle + tail);
    assert(items.remove(place) == head + tail);
    lemma_decoded_concat::<T>(head + middle, tail);
    lemma_decoded_concat::<T>(head, middle);
    lemma_decoded_concat::<T>(head, tail);
    assert forall|at: int| 0 <= at <= head.len() - 1 && at < head.len() implies (
    #[trigger] T::value_of(head[at])) is Some by {
        assert(head[at] == items[at]);
    }
    lemma_decoded_aligned::<T>(head);
    assert(T::value_of(items[place]) is Some);
    let gone = T::value_of(items[place])->Some_0;
    assert(decoded::<T>(middle) == seq![gone]) by {
        assert(middle.drop_last() == Seq::<Seq<char>>::empty());
        assert(decoded::<T>(middle.drop_last()) == Seq::<T::V>::empty());
        assert(middle.last() == items[place]);
    }
    assert((decoded::<T>(head) + seq![gone] + decoded::<T>(tail)).remove(place) == decoded::<T>(
        head,
    ) + decoded::<T>(tail));
}

/// An index at or beyond the length names no item: the store refuses the
/// overwrite and answers the read with nothing, the list stays as it was,
/// and replace-at and delete-at make an out-of-range failure of either
/// reply.
pub proof fn index_beyond_length_is_refused(items: Seq<Seq<char>>, index: int, value: Seq<char>)
    requires
        index >= items.len(),
    ensures
        position(items.len(), index) is None,
        apply(items, CommandView::SetAt { index, value }) == (items, ReplyView::OutOfRange),
        apply(items, CommandView::ItemAt { index }) == (items, ReplyView::Nil),
        replacing(index, ReplyView::OutOfRange) == Err::<int, RepositoryErrorView>(
            RepositoryErrorView::IndexOutOfRange,
        ),
        locating(ReplyView::Nil) == Err::<Seq<char>, RepositoryErrorView>(
            RepositoryErrorView::IndexOutOfRange,
        ),
{
}

} // verus!
