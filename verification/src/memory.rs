//! A store adapter that keeps its list in memory. It answers every command
//! as the list model says, so a repository on it can be followed step by
//! step.

use vstd::prelude::*;

use crate::command::{texts, Command, Reply};
use crate::error::BackendFailure;
use crate::list::{capacity, position, range, without_first, without_last};
use crate::repository::{QueueRepository, Record, StoreAdapter};

verus! {

/// The place that an index names in a list of `len` items.
fn place_of(len: usize, index: isize) -> (place: Option<usize>)
    requires
        len <= isize::MAX,
    ensures
        match place {
            Some(place) => position(len as nat, index as int) == Some(place as int),
            None => position(len as nat, index as int) is None,
        },
{
    let length = len as isize;
    let place = if index < 0 {
        length + index
    } else {
        index
    };
    if 0 <= place && place < length {
        Some(place as usize)
    } else {
        None
    }
}

/// Copies the items from `start` to `stop`.
fn copy_range(items: &Vec<String>, start: isize, stop: isize) -> (copy: Vec<String>)
    requires
        items.len() <= isize::MAX,
    ensures
        texts(copy@) == range(texts(items@), start as int, stop as int),
{
    let length = items.len() as isize;
    let first = if start < 0 {
        length + start
    } else {
        start
    };
    let first = if first < 0 {
        0
    } else {
        first
    };
    let last = if stop < 0 {
        length + stop
    } else {
        stop
    };
    let last = if last >= length {
        length - 1
    } else {
        last
    };
    let mut copy: Vec<String> = Vec::new();
    if first > last || first >= length {
        assert(texts(copy@) == Seq::<Seq<char>>::empty());
        return copy;
    }
    let from = first as usize;
    let until = (last + 1) as usize;
    let mut i: usize = from;
    while i < until
        invariant
            from <= i <= until <= items.len(),
            texts(copy@) == texts(items@).subrange(from as int, i as int),
        decreases until - i,
    {
        let ghost so_far = texts(copy@);
        copy.push(items[i].clone());
        assert(texts(copy@) == so_far.push(items@[i as int]@));
        i += 1;
        assert(texts(items@).subrange(from as int, i as int) == texts(items@).subrange(
            from as int,
            i - 1,
        ).push(items@[i - 1]@));
    }
    copy
}

/// Removes, in place, the first `limit` items equal to `value`, counted from
/// the head, and says how many went.
fn strike_from_head(items: &mut Vec<String>, value: &String, limit: usize) -> (removed: usize)
    ensures
        texts(final(items)@) == without_first(texts(old(items)@), value@, limit as nat),
        removed == old(items).len() - final(items).len(),
        final(items).len() <= old(items).len(),
{
    let ghost all = texts(items@);
    let mut removed: usize = 0;
    let mut i: usize = 0;
    assert(texts(items@).take(0) + without_first(texts(items@).skip(0), value@, limit as nat)
        == without_first(all, value@, limit as nat)) by {
        assert(texts(items@).skip(0) == all);
        assert(texts(items@).take(0) == Seq::<Seq<char>>::empty());
    }
    while i < items.len() && removed < limit
        invariant
            i <= items.len(),
            removed <= limit,
            items.len() + removed == all.len(),
            without_first(all, value@, limit as nat) == texts(items@).take(i as int)
                + without_first(texts(items@).skip(i as int), value@, (limit - removed) as nat),
        decreases items.len() - i,
    {
        let ghost now = texts(items@);
        let ghost rest = now.skip(i as int);
        assert(rest[0] == now[i as int]);
        assert(rest.drop_first() == now.skip(i + 1));
        if items[i] == *value {
            items.remove(i);
            removed += 1;
            proof {
                let after = texts(items@);
                assert(after == now.remove(i as int));
                assert(after.take(i as int) == now.take(i as int));
                assert(after.skip(i as int) == now.skip(i + 1));
            }
        } else {
            i += 1;
            proof {
                assert(now.take(i as int) == now.take(i - 1).push(now[i - 1]));
                assert(now.take(i - 1) + (seq![rest[0]] + without_first(
                    now.skip(i as int),
                    value@,
                    (limit - removed) as nat,
                )) == now.take(i as int) + without_first(
                    now.skip(i as int),
                    value@,
                    (limit - removed) as nat,
                ));
            }
        }
    }
    proof {
        let now = texts(items@);
        let rest = now.skip(i as int);
        assert(without_first(rest, value@, (limit - removed) as nat) == rest);
        assert(now.take(i as int) + rest == now);
    }
    removed
}

/// Removes, in place, the first `limit` items equal to `value`, counted from
/// the tail, and says how many went.
fn strike_from_tail(items: &mut Vec<String>, value: &String, limit: usize) -> (removed: usize)
    ensures
        texts(final(items)@) == without_last(texts(old(items)@), value@, limit as nat),
        removed == old(items).len() - final(items).len(),
        final(items).len() <= old(items).len(),
{
    let ghost all = texts(items@);
    let mut removed: usize = 0;
    let mut i: usize = items.len();
    assert(without_last(all.take(i as int), value@, limit as nat) + texts(items@).skip(i as int)
        == without_last(all, value@, limit as nat)) by {
        assert(all.take(i as int) == all);
        assert(texts(items@).skip(i as int) == Seq::<Seq<char>>::empty());
    }
    while i > 0 && removed < limit
        invariant
            i <= items.len(),
            i <= all.len(),
            removed <= limit,
            items.len() + removed == all.len(),
            texts(items@).take(i as int) == all.take(i as int),
            without_last(all, value@, limit as nat) == without_last(
                all.take(i as int),
                value@,
                (limit - removed) as nat,
            ) + texts(items@).skip(i as int),
        decreases i,
    {
        let ghost now = texts(items@);
        let ghost head = all.take(i as int);
        assert(head.last() == all[i - 1]);
        assert(head.drop_last() == all.take(i - 1));
        assert(now[i - 1] == now.take(i as int)[i - 1]);
        i -= 1;
        if items[i] == *value {
            items.remove(i);
            removed += 1;
            proof {
                let after = texts(items@);
                assert(after == now.remove(i as int));
                assert(after.take(i as int) == now.take(i + 1).take(i as int));
                assert(all.take(i + 1).take(i as int) == all.take(i as int));
                assert(after.skip(i as int) == now.skip(i + 1));
            }
        } else {
            proof {
                assert(now.take(i as int) == now.take(i + 1).take(i as int));
                assert(all.take(i + 1).take(i as int) == all.take(i as int));
                let kept = without_last(all.take(i as int), value@, (limit - removed) as nat);
                assert(kept.push(all[i as int]) + now.skip(i + 1) == kept + now.skip(i as int));
            }
        }
    }
    proof {
        let now = texts(items@);
        let head = all.take(i as int);
        assert(without_last(head, value@, (limit - removed) as nat) == head);
        assert(now.take(i as int) + now.skip(i as int) == now);
    }
    removed
}

/// A list in memory, bound to its key.
pub struct MemoryQueue {
    key: String,
    items: Vec<String>,
}

impl MemoryQueue {
    /// An empty list under a key.
    pub fn new(key: &str) -> (queue: MemoryQueue)
        ensures
            queue.items() == Some(Seq::<Seq<char>>::empty()),
            queue.bound_key() == Some(key@),
    {
        let queue = MemoryQueue { key: String::from_str(key), items: Vec::new() };
        assert(texts(queue.items@) == Seq::<Seq<char>>::empty());
        queue
    }

    /// The number of stored items, records or not.
    pub fn len(&self) -> (len: usize)
        ensures
            self.items() matches Some(items) ==> len == items.len(),
    {
        self.items.len()
    }

    /// The stored texts, from the head to the tail.
    pub fn stored(&self) -> (copy: Vec<String>)
        ensures
            self.items() matches Some(items) ==> texts(copy@) == items,
    {
        let mut copy: Vec<String> = Vec::new();
        let mut i: usize = 0;
        assert(texts(copy@) == texts(self.items@).take(0));
        while i < self.items.len()
            invariant
                i <= self.items.len(),
                texts(copy@) == texts(self.items@).take(i as int),
            decreases self.items.len() - i,
        {
            let ghost so_far = texts(copy@);
            copy.push(self.items[i].clone());
            assert(texts(copy@) == so_far.push(self.items@[i as int]@));
            i += 1;
            assert(texts(self.items@).take(i as int) == texts(self.items@).take(i - 1).push(
                self.items@[i - 1]@,
            ));
        }
        assert(texts(self.items@).take(self.items.len() as int) == texts(self.items@));
        copy
    }
}

impl StoreAdapter for MemoryQueue {
    /// The key under which the list was made.
    closed spec fn bound_key(&self) -> Option<Seq<char>> {
        Some(self.key@)
    }

    /// The stored texts, from the head to the tail.
    closed spec fn items(&self) -> Option<Seq<Seq<char>>> {
        if self.items.len() <= capacity() {
            Some(texts(self.items@))
        } else {
            None
        }
    }

    fn key(&self) -> (key: &str) {
        self.key.as_str()
    }

    fn execute(&mut self, command: &Command) -> (reply: Reply) {
        if self.items.len() > isize::MAX as usize {
            return Reply::Failed(BackendFailure::ListFull);
        }
        let ghost before = texts(self.items@);
        match command {
            Command::Range { start, stop } => Reply::Items(copy_range(&self.items, *start, *stop)),
            Command::PushRight { value } => {
                if self.items.len() < isize::MAX as usize {
                    self.items.push(value.clone());
                    assert(texts(self.items@) == before.push(value@));
                    Reply::Integer(self.items.len() as isize)
                } else {
                    Reply::Failed(BackendFailure::ListFull)
                }
            },
            Command::SetAt { index, value } => match place_of(self.items.len(), *index) {
                Some(place) => {
                    self.items.set(place, value.clone());
                    assert(texts(self.items@) == before.update(place as int, value@));
                    Reply::Done
                },
                None => Reply::OutOfRange,
            },
            Command::ItemAt { index } => match place_of(self.items.len(), *index) {
                Some(place) => Reply::Item(self.items[place].clone()),
                None => Reply::Nil,
            },
            Command::Remove { count, value } => {
                let removed = if *count > 0 {
                    strike_from_head(&mut self.items, value, *count as usize)
                } else if *count < 0 {
                    let limit = if *count == isize::MIN {
                        isize::MAX as usize + 1
                    } else {
                        (-*count) as usize
                    };
                    strike_from_tail(&mut self.items, value, limit)
                } else {
                    let limit = self.items.len();
                    strike_from_head(&mut self.items, value, limit)
                };
                Reply::Integer(removed as isize)
            },
        }
    }
}

impl<T: Record> QueueRepository<T> for MemoryQueue {

}

} // verus!
