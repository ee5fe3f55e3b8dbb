//! What the commands mean: a list as a sequence of texts, and each command as
//! a step from one sequence to the next with a reply.

use vstd::prelude::*;

use crate::command::{CommandView, ReplyView};
use crate::error::BackendFailureView;

verus! {

/// The most items that a list can hold: a length must fit the integer of a
/// reply.
pub open spec fn capacity() -> int {
    isize::MAX as int
}

/// The place in a list of `len` items that an index names, if it names one.
/// An index of zero or more counts from the head, a negative one from the
/// tail.
pub open spec fn position(len: nat, index: int) -> Option<int> {
    let place = if index < 0 {
        len + index
    } else {
        index
    };
    if 0 <= place < len {
        Some(place)
    } else {
        None
    }
}

/// The first place of a range: `start` as an index, and the head where that
/// lies before it.
pub open spec fn range_first(len: nat, start: int) -> int {
    let place = if start < 0 {
        len + start
    } else {
        start
    };
    if place < 0 {
        0
    } else {
        place
    }
}

/// The last place of a range: `stop` as an index, and the tail where that
/// lies behind it. It is negative where `stop` lies before the head.
pub open spec fn range_last(len: nat, stop: int) -> int {
    let place = if stop < 0 {
        len + stop
    } else {
        stop
    };
    if place >= len {
        len - 1
    } else {
        place
    }
}

/// The items from `start` to `stop`, both included; none where the range is
/// empty or begins behind the tail.
pub open spec fn range(items: Seq<Seq<char>>, start: int, stop: int) -> Seq<Seq<char>> {
    let first = range_first(items.len(), start);
    let last = range_last(items.len(), stop);
    if first > last || first >= items.len() {
        Seq::empty()
    } else {
        items.subrange(first, last + 1)
    }
}

/// The list without the first `limit` items equal to `value`, counted from
/// the head.
pub open spec fn without_first(items: Seq<Seq<char>>, value: Seq<char>, limit: nat) -> Seq<
    Seq<char>,
>
    decreases items.len(),
{
    if items.len() == 0 || limit == 0 {
        items
    } else if items[0] == value {
        without_first(items.drop_first(), value, (limit - 1) as nat)
    } else {
        seq![items[0]] + without_first(items.drop_first(), value, limit)
    }
}

/// The list without the first `limit` items equal to `value`, counted from
/// the tail.
pub open spec fn without_last(items: Seq<Seq<char>>, value: Seq<char>, limit: nat) -> Seq<
    Seq<char>,
>
    decreases items.len(),
{
    if items.len() == 0 || limit == 0 {
        items
    } else if items.last() == value {
        without_last(items.drop_last(), value, (limit - 1) as nat)
    } else {
        without_last(items.drop_last(), value, limit).push(items.last())
    }
}

/// The list after a removal by value: `count` says how many items go and from
/// which end, and zero says all.
pub open spec fn without(items: Seq<Seq<char>>, count: int, value: Seq<char>) -> Seq<Seq<char>> {
    if count > 0 {
        without_first(items, value, count as nat)
    } else if count < 0 {
        without_last(items, value, (-count) as nat)
    } else {
        without_first(items, value, items.len())
    }
}

/// What a command does to a list, and what the store replies.
pub open spec fn apply(items: Seq<Seq<char>>, command: CommandView) -> (Seq<Seq<char>>, ReplyView) {
    match command {
        CommandView::Range { start, stop } => (items, ReplyView::Items(range(items, start, stop))),
        CommandView::PushRight { value } => if items.len() < capacity() {
            (items.push(value), ReplyView::Integer(items.len() as int + 1))
        } else {
            (items, ReplyView::Failed(BackendFailureView::ListFull))
        },
        CommandView::SetAt { index, value } => match position(items.len(), index) {
            Some(place) => (items.update(place, value), ReplyView::Done),
            None => (items, ReplyView::OutOfRange),
        },
        CommandView::ItemAt { index } => match position(items.len(), index) {
            Some(place) => (items, ReplyView::Item(items[place])),
            None => (items, ReplyView::Nil),
        },
        CommandView::Remove { count, value } => {
            let kept = without(items, count, value);
            (kept, ReplyView::Integer(items.len() - kept.len()))
        },
    }
}

/// The range from the head to the tail is the whole list.
pub proof fn lemma_whole_range(items: Seq<Seq<char>>)
    ensures
        range(items, 0, -1) == items,
{
    if items.len() > 0 {
        assert(items.subrange(0, items.len() as int) == items);
    }
}

/// Removing one item by value takes the item at `place` itself where no
/// item before it is equal to it.
pub proof fn lemma_without_first_at(items: Seq<Seq<char>>, place: int)
    requires
        0 <= place < items.len(),
        forall|other: int| 0 <= other < place ==> items[other] != items[place],
    ensures
        without_first(items, items[place], 1) == items.remove(place),
    decreases items.len(),
{
    let value = items[place];
    if place == 0 {
        assert(without_first(items.drop_first(), value, 0) == items.drop_first());
        assert(items.drop_first() == items.remove(0));
    } else {
        let rest = items.drop_first();
        assert(items[0] != value);
        assert(rest[place - 1] == value);
        assert forall|other: int| 0 <= other < place - 1 implies #[trigger] rest[other]
            != value by {
            assert(rest[other] == items[other + 1]);
        }
        lemma_without_first_at(rest, place - 1);
        assert(seq![items[0]] + rest.remove(place - 1) == items.remove(place));
    }
}

} // verus!
