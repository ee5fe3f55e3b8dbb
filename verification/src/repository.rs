//! The repository: list-all, append, replace-at and delete-at over one list
//! of stored records, whatever store holds the list.

use vstd::prelude::*;

use crate::command::{texts, Command, CommandView, Reply, ReplyView};
use crate::error::{BackendFailure, BackendFailureView, RepositoryError, RepositoryErrorView};
use crate::list::{apply, capacity, lemma_whole_range, position, without_first};

verus! {

/// A record that can be stored: it has a text, and a text may stand for it.
pub trait Record: View + Sized {
    /// The text of a record.
    spec fn text_of(value: Self::V) -> Seq<char>;

    /// The record that a text stands for, if it stands for one.
    spec fn value_of(text: Seq<char>) -> Option<Self::V>;

    /// Writes the record as text. It hands out the text where the text
    /// stands for the record again, so that what is stored can be read, and
    /// fails where it does not.
    fn encode(&self) -> (r: Result<String, RepositoryError>)
        ensures
            match r {
                Ok(text) => text@ == Self::text_of(self@) && Self::value_of(text@) == Some(
                    self@,
                ),
                Err(error) => error is SerializationError && Self::value_of(
                    Self::text_of(self@),
                ) != Some(self@),
            },
    ;

    /// Reads a record from a text.
    fn decode(text: &str) -> (r: Result<Self, RepositoryError>)
        ensures
            match r {
                Ok(record) => Self::value_of(text@) == Some(record@),
                Err(error) => Self::value_of(text@) is None && error is SerializationError,
            },
    ;
}

/// Whether the text of a record stands for that record again: what `encode`
/// makes sure of before it hands out a text.
pub open spec fn faithful<T: Record>(value: T::V) -> bool {
    T::value_of(T::text_of(value)) == Some(value)
}

/// A run of records as plain values.
pub open spec fn record_views<T: View>(records: Seq<T>) -> Seq<T::V> {
    records.map_values(|record: T| record@)
}

/// The records of a run of stored texts, in their order. A text that stands
/// for no record is passed over.
pub open spec fn decoded<T: Record>(items: Seq<Seq<char>>) -> Seq<T::V>
    decreases items.len(),
{
    if items.len() == 0 {
        Seq::empty()
    } else {
        match T::value_of(items.last()) {
            Some(value) => decoded::<T>(items.drop_last()).push(value),
            None => decoded::<T>(items.drop_last()),
        }
    }
}

/// What list-all returns for a reply.
pub open spec fn listing<T: Record>(reply: ReplyView) -> Result<Seq<T::V>, RepositoryErrorView> {
    match reply {
        ReplyView::Items(items) => Ok(decoded::<T>(items)),
        ReplyView::Failed(failure) => Err(RepositoryErrorView::BackendError(failure)),
        _ => Err(RepositoryErrorView::BackendError(BackendFailureView::UnexpectedReply)),
    }
}

/// What append returns for a reply.
pub open spec fn pushing(reply: ReplyView) -> Result<int, RepositoryErrorView> {
    match reply {
        ReplyView::Integer(length) => Ok(length),
        ReplyView::Failed(failure) => Err(RepositoryErrorView::BackendError(failure)),
        _ => Err(RepositoryErrorView::BackendError(BackendFailureView::UnexpectedReply)),
    }
}

/// What replace-at returns for an index and a reply.
pub open spec fn replacing(index: int, reply: ReplyView) -> Result<int, RepositoryErrorView> {
    match reply {
        ReplyView::Done => Ok(index),
        ReplyView::OutOfRange => Err(RepositoryErrorView::IndexOutOfRange),
        ReplyView::Failed(failure) => Err(RepositoryErrorView::BackendError(failure)),
        _ => Err(RepositoryErrorView::BackendError(BackendFailureView::UnexpectedReply)),
    }
}

/// What the read of delete-at yields for a reply: the stored text, or the
/// failure of the operation.
pub open spec fn locating(reply: ReplyView) -> Result<Seq<char>, RepositoryErrorView> {
    match reply {
        ReplyView::Item(text) => Ok(text),
        ReplyView::Nil => Err(RepositoryErrorView::IndexOutOfRange),
        ReplyView::OutOfRange => Err(RepositoryErrorView::IndexOutOfRange),
        ReplyView::Failed(failure) => Err(RepositoryErrorView::BackendError(failure)),
        _ => Err(RepositoryErrorView::BackendError(BackendFailureView::UnexpectedReply)),
    }
}

/// What delete-at returns for the text that it read and the reply to the
/// removal. How many items went is not looked at.
pub open spec fn deleting<T: Record>(text: Seq<char>, reply: ReplyView) -> Result<
    T::V,
    RepositoryErrorView,
> {
    match reply {
        ReplyView::Integer(_) => match T::value_of(text) {
            Some(value) => Ok(value),
            None => Err(RepositoryErrorView::SerializationError),
        },
        ReplyView::Failed(failure) => Err(RepositoryErrorView::BackendError(failure)),
        _ => Err(RepositoryErrorView::BackendError(BackendFailureView::UnexpectedReply)),
    }
}

/// The command of list-all: the range from the head to the tail.
pub fn list_command() -> (command: Command)
    ensures
        command@ == (CommandView::Range { start: 0, stop: -1 }),
{
    Command::Range { start: 0, stop: -1 }
}

/// Reads the records out of a run of stored texts and passes over each text
/// that is no record.
pub fn decode_all<T: Record>(items: &Vec<String>) -> (records: Vec<T>)
    ensures
        record_views(records@) == decoded::<T>(texts(items@)),
{
    let mut records: Vec<T> = Vec::new();
    let mut i: usize = 0;
    assert(texts(items@).take(0) == Seq::<Seq<char>>::empty());
    assert(record_views(records@) == Seq::<T::V>::empty());
    while i < items.len()
        invariant
            i <= items.len(),
            record_views(records@) == decoded::<T>(texts(items@).take(i as int)),
        decreases items.len() - i,
    {
        let ghost before = record_views(records@);
        proof {
            let next = texts(items@).take(i + 1);
            assert(next.drop_last() == texts(items@).take(i as int));
            assert(next.last() == items@[i as int]@);
        }
        match T::decode(items[i].as_str()) {
            Ok(record) => {
                records.push(record);
                assert(record_views(records@) == before.push(record@));
            },
            Err(_) => {},
        }
        i += 1;
    }
    assert(texts(items@).take(items.len() as int) == texts(items@));
    records
}

/// The result of list-all, from the reply to its command.
pub fn listed<T: Record>(reply: Reply) -> (r: Result<Vec<T>, RepositoryError>)
    ensures
        match r {
            Ok(records) => listing::<T>(reply@) == Ok::<Seq<T::V>, RepositoryErrorView>(
                record_views(records@),
            ),
            Err(error) => listing::<T>(reply@) == Err::<Seq<T::V>, RepositoryErrorView>(error@),
        },
{
    match reply {
        Reply::Items(items) => Ok(decode_all(&items)),
        Reply::Failed(failure) => Err(RepositoryError::BackendError(failure)),
        _ => Err(RepositoryError::BackendError(BackendFailure::UnexpectedReply)),
    }
}

/// The command of append: the record's text goes to the tail. No command is
/// made where the record has no text that stands for it.
pub fn push_command<T: Record>(data: &T) -> (r: Result<Command, RepositoryError>)
    ensures
        match r {
            Ok(command) => {
                &&& command@ == (CommandView::PushRight { value: T::text_of(data@) })
                &&& faithful::<T>(data@)
            },
            Err(error) => error is SerializationError && !faithful::<T>(data@),
        },
{
    match data.encode() {
        Ok(value) => Ok(Command::PushRight { value }),
        Err(error) => Err(error),
    }
}

/// The result of append, from the reply to its command: the new length.
pub fn pushed(reply: Reply) -> (r: Result<isize, RepositoryError>)
    ensures
        match r {
            Ok(length) => pushing(reply@) == Ok::<int, RepositoryErrorView>(length as int),
            Err(error) => pushing(reply@) == Err::<int, RepositoryErrorView>(error@),
        },
{
    match reply {
        Reply::Integer(length) => Ok(length),
        Reply::Failed(failure) => Err(RepositoryError::BackendError(failure)),
        _ => Err(RepositoryError::BackendError(BackendFailure::UnexpectedReply)),
    }
}

/// The command of replace-at: the record's text goes where `index` points.
/// No command is made where the record has no text that stands for it.
pub fn replace_command<T: Record>(index: isize, data: &T) -> (r: Result<Command, RepositoryError>)
    ensures
        match r {
            Ok(command) => {
                &&& command@ == (CommandView::SetAt {
                    index: index as int,
                    value: T::text_of(data@),
                })
                &&& faithful::<T>(data@)
            },
            Err(error) => error is SerializationError && !faithful::<T>(data@),
        },
{
    match data.encode() {
        Ok(value) => Ok(Command::SetAt { index, value }),
        Err(error) => Err(error),
    }
}

/// The result of replace-at, from the reply to its command: the index again.
pub fn replaced(index: isize, reply: Reply) -> (r: Result<isize, RepositoryError>)
    ensures
        match r {
            Ok(same) => replacing(index as int, reply@) == Ok::<int, RepositoryErrorView>(
                same as int,
            ),
            Err(error) => replacing(index as int, reply@) == Err::<int, RepositoryErrorView>(
                error@,
            ),
        },
{
    match reply {
        Reply::Done => Ok(index),
        Reply::OutOfRange => Err(RepositoryError::IndexOutOfRange),
        Reply::Failed(failure) => Err(RepositoryError::BackendError(failure)),
        _ => Err(RepositoryError::BackendError(BackendFailure::UnexpectedReply)),
    }
}

/// The first command of delete-at: read the item where `index` points.
pub fn lookup_command(index: isize) -> (command: Command)
    ensures
        command@ == (CommandView::ItemAt { index: index as int }),
{
    Command::ItemAt { index }
}

/// The text to delete, from the reply to the read.
pub fn located(reply: Reply) -> (r: Result<String, RepositoryError>)
    ensures
        match r {
            Ok(text) => locating(reply@) == Ok::<Seq<char>, RepositoryErrorView>(text@),
            Err(error) => locating(reply@) == Err::<Seq<char>, RepositoryErrorView>(error@),
        },
{
    match reply {
        Reply::Item(text) => Ok(text),
        Reply::Nil => Err(RepositoryError::IndexOutOfRange),
        Reply::OutOfRange => Err(RepositoryError::IndexOutOfRange),
        Reply::Failed(failure) => Err(RepositoryError::BackendError(failure)),
        _ => Err(RepositoryError::BackendError(BackendFailure::UnexpectedReply)),
    }
}

/// The second command of delete-at: remove the first item, counted from the
/// head, that is equal to the text that was read.
pub fn removal_command(text: &str) -> (command: Command)
    ensures
        command@ == (CommandView::Remove { count: 1, value: text@ }),
{
    Command::Remove { count: 1, value: String::from_str(text) }
}

/// The result of delete-at, from the text that was read and the reply to the
/// removal: the record that the text stands for.
pub fn deleted<T: Record>(text: &str, reply: Reply) -> (r: Result<T, RepositoryError>)
    ensures
        match r {
            Ok(record) => deleting::<T>(text@, reply@) == Ok::<T::V, RepositoryErrorView>(record@),
            Err(error) => deleting::<T>(text@, reply@) == Err::<T::V, RepositoryErrorView>(error@),
        },
{
    match reply {
        Reply::Integer(_) => T::decode(text),
        Reply::Failed(failure) => Err(RepositoryError::BackendError(failure)),
        _ => Err(RepositoryError::BackendError(BackendFailure::UnexpectedReply)),
    }
}

/// A list store bound to the key of one list. It carries out commands on
/// that list; what the repository makes of the replies is not its business.
pub trait StoreAdapter {
    /// The key that the adapter was bound to when it was made, for an
    /// adapter that keeps it where every command can be held to it. `None`
    /// for every other adapter.
    open spec fn bound_key(&self) -> Option<Seq<char>> {
        None
    }

    /// What the list holds, for an adapter that keeps the list itself and
    /// answers each command as `apply` says. `None` for every other adapter:
    /// nothing is assumed of a list that lies in a store behind a connection.
    open spec fn items(&self) -> Option<Seq<Seq<char>>> {
        None
    }

    /// The key of the list, fixed when the adapter was made.
    fn key(&self) -> (key: &str)
        ensures
            self.bound_key() matches Some(bound) ==> key@ == bound,
    ;

    /// Carries out one command on the list and hands back the reply. The
    /// adapter stays bound to its key.
    fn execute(&mut self, command: &Command) -> (reply: Reply)
        ensures
            final(self).bound_key() == old(self).bound_key(),
            old(self).items() matches Some(before) ==> {
                &&& final(self).items() == Some(apply(before, command@).0)
                &&& reply@ == apply(before, command@).1
            },
    ;
}

/// The four operations on an ordered collection of records of one type,
/// for any store adapter. Each operation talks to the store anew; nothing is
/// kept between two of them.
pub trait QueueRepository<T: Record>: StoreAdapter {
    /// The records of the collection, in stored order, without the items
    /// that are no records. It fails only where the store does.
    fn all(&mut self) -> (r: Result<Vec<T>, RepositoryError>)
        ensures
            final(self).bound_key() == old(self).bound_key(),
            r matches Err(error) ==> error is BackendError,
            old(self).items() matches Some(before) ==> {
                &&& final(self).items() == Some(before)
                &&& r matches Ok(records) && record_views(records@) == decoded::<T>(before)
            },
    {
        let reply = self.execute(&list_command());
        proof {
            if old(self).items() is Some {
                lemma_whole_range(old(self).items()->Some_0);
            }
        }
        listed(reply)
    }

    /// Appends a record at the tail and returns the new length. A record
    /// whose text does not stand for it again is not appended, and the
    /// store is not asked. On a list that the adapter keeps itself, the
    /// append of any other record succeeds while the list has room.
    fn push(&mut self, data: &T) -> (r: Result<isize, RepositoryError>)
        ensures
            final(self).bound_key() == old(self).bound_key(),
            r is Ok ==> faithful::<T>(data@),
            r matches Err(error) ==> error is BackendError || error is SerializationError,
            r matches Err(error) ==> (error is SerializationError <==> !faithful::<T>(data@)),
            old(self).items() matches Some(before) ==> match r {
                Ok(length) => {
                    &&& final(self).items() == Some(before.push(T::text_of(data@)))
                    &&& length == before.len() + 1
                },
                Err(error) => {
                    &&& final(self).items() == Some(before)
                    &&& (error is SerializationError && !faithful::<T>(data@)) || (before.len()
                        >= capacity() && error@ == RepositoryErrorView::BackendError(
                        BackendFailureView::ListFull,
                    ))
                },
            },
    {
        match push_command(data) {
            Ok(command) => pushed(self.execute(&command)),
            Err(error) => Err(error),
        }
    }

    /// Overwrites the record at `index` and returns the index. Where no item
    /// is there, it fails and the collection stays as it was. A record
    /// whose text does not stand for it again is not written, and the store
    /// is not asked. On a list that the adapter keeps itself, the overwrite
    /// of any other record at an index that names an item succeeds.
    fn replace(&mut self, index: isize, data: &T) -> (r: Result<isize, RepositoryError>)
        ensures
            final(self).bound_key() == old(self).bound_key(),
            r matches Ok(same) ==> same == index && faithful::<T>(data@),
            r matches Err(error) ==> !(error is PoolExhausted),
            r matches Err(error) ==> (error is SerializationError <==> !faithful::<T>(data@)),
            old(self).items() matches Some(before) ==> match r {
                Ok(_) => {
                    &&& position(before.len(), index as int) matches Some(place)
                    &&& final(self).items() == Some(before.update(place, T::text_of(data@)))
                },
                Err(error) => {
                    &&& final(self).items() == Some(before)
                    &&& (error is SerializationError && !faithful::<T>(data@)) || (error
                        is IndexOutOfRange && position(before.len(), index as int) is None)
                },
            },
    {
        match replace_command(index, data) {
            Ok(command) => replaced(index, self.execute(&command)),
            Err(error) => Err(error),
        }
    }

    /// Removes the record at `index` and returns it. The store removes by
    /// value: the item that goes is the first one, counted from the head,
    /// that is equal to the item at `index`, which is an earlier one where
    /// the same text is stored twice. The item goes even where it is no
    /// record, and the operation then fails.
    fn delete(&mut self, index: isize) -> (r: Result<T, RepositoryError>)
        ensures
            final(self).bound_key() == old(self).bound_key(),
            r matches Err(error) ==> !(error is PoolExhausted),
            old(self).items() matches Some(before) ==> match position(
                before.len(),
                index as int,
            ) {
                Some(place) => {
                    &&& final(self).items() == Some(without_first(before, before[place], 1))
                    &&& match r {
                        Ok(record) => T::value_of(before[place]) == Some(record@),
                        Err(error) => T::value_of(before[place]) is None
                            && error is SerializationError,
                    }
                },
                None => {
                    &&& final(self).items() == Some(before)
                    &&& r matches Err(error) && error is IndexOutOfRange
                },
            },
    {
        let text = match located(self.execute(&lookup_command(index))) {
            Ok(text) => text,
            Err(error) => {
                return Err(error);
            },
        };
        let reply = self.execute(&removal_command(text.as_str()));
        deleted(text.as_str(), reply)
    }
}

} // verus!
