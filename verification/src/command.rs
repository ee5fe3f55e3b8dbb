//! The words that a repository and a list store exchange: the commands on one
//! list, and the replies to them.

use vstd::prelude::*;

use crate::error::{optional_text, BackendFailure, BackendFailureView};

verus! {

/// A command on the list that a store adapter is bound to, after the list
/// commands of Redis: `LRANGE`, `RPUSH`, `LSET`, `LINDEX` and `LREM`. An
/// index counts from the head when it is zero or more (0 is the first item)
/// and from the tail when it is negative (-1 is the last).
#[derive(Debug)]
pub enum Command {
    /// Read the items from `start` to `stop`, both included.
    Range { start: isize, stop: isize },
    /// Append `value` at the tail.
    PushRight { value: String },
    /// Overwrite the item at `index` with `value`.
    SetAt { index: isize, value: String },
    /// Read the item at `index`.
    ItemAt { index: isize },
    /// Remove items equal to `value`: the first `count` from the head when
    /// `count` is positive, the first `-count` from the tail when it is
    /// negative, all of them when it is zero.
    Remove { count: isize, value: String },
}

/// A `Command` as plain values.
pub enum CommandView {
    Range { start: int, stop: int },
    PushRight { value: Seq<char> },
    SetAt { index: int, value: Seq<char> },
    ItemAt { index: int },
    Remove { count: int, value: Seq<char> },
}

impl View for Command {
    type V = CommandView;

    open spec fn view(&self) -> CommandView {
        match self {
            Command::Range { start, stop } => CommandView::Range {
                start: *start as int,
                stop: *stop as int,
            },
            Command::PushRight { value } => CommandView::PushRight { value: value@ },
            Command::SetAt { index, value } => CommandView::SetAt {
                index: *index as int,
                value: value@,
            },
            Command::ItemAt { index } => CommandView::ItemAt { index: *index as int },
            Command::Remove { count, value } => CommandView::Remove {
                count: *count as int,
                value: value@,
            },
        }
    }
}

/// What a store answered to a command.
#[derive(Debug)]
pub enum Reply {
    /// A run of items, in list order.
    Items(Vec<String>),
    /// A count: a length, or a number of items removed.
    Integer(isize),
    /// One item.
    Item(String),
    /// No item: the reply to a read where the list has none.
    Nil,
    /// The command was carried out and has nothing to tell.
    Done,
    /// The store refused the command because the list has no item at the index.
    OutOfRange,
    /// The command failed in any other way.
    Failed(BackendFailure),
}

/// A `Reply` as plain values.
pub enum ReplyView {
    Items(Seq<Seq<char>>),
    Integer(int),
    Item(Seq<char>),
    Nil,
    Done,
    OutOfRange,
    Failed(BackendFailureView),
}

/// A run of texts as plain values.
pub open spec fn texts(items: Seq<String>) -> Seq<Seq<char>> {
    items.map_values(|item: String| item@)
}

impl View for Reply {
    type V = ReplyView;

    open spec fn view(&self) -> ReplyView {
        match self {
            Reply::Items(items) => ReplyView::Items(texts(items@)),
            Reply::Integer(count) => ReplyView::Integer(*count as int),
            Reply::Item(item) => ReplyView::Item(item@),
            Reply::Nil => ReplyView::Nil,
            Reply::Done => ReplyView::Done,
            Reply::OutOfRange => ReplyView::OutOfRange,
            Reply::Failed(failure) => ReplyView::Failed(failure@),
        }
    }
}

/// Whether an error that a store reported says that the list has no item at
/// the index of the command: the code is `ERR`, and the text is that of an
/// index beyond the list or of a key that holds no list.
pub open spec fn names_missing_item(code: Option<Seq<char>>, detail: Option<Seq<char>>) -> bool {
    code == Some("ERR"@) && (detail == Some("index out of range"@) || detail == Some(
        "no such key"@,
    ))
}

/// The reply that an error stands for.
pub open spec fn rejection(code: Option<Seq<char>>, detail: Option<Seq<char>>) -> ReplyView {
    if names_missing_item(code, detail) {
        ReplyView::OutOfRange
    } else {
        ReplyView::Failed(BackendFailureView::Reported { code, detail })
    }
}

/// Whether an optional text is there and equal to a given one.
fn is_text(text: &Option<String>, wanted: &str) -> (same: bool)
    ensures
        same == (optional_text(*text) == Some(wanted@)),
{
    match text {
        Some(text) => *text == String::from_str(wanted),
        None => false,
    }
}

impl Reply {
    /// Turns an error that the store or the connection reported, given by
    /// its code and its text, into a reply.
    pub fn rejected(code: Option<String>, detail: Option<String>) -> (reply: Reply)
        ensures
            reply@ == rejection(optional_text(code), optional_text(detail)),
    {
        if is_text(&code, "ERR") && (is_text(&detail, "index out of range") || is_text(
            &detail,
            "no such key",
        )) {
            Reply::OutOfRange
        } else {
            Reply::Failed(BackendFailure::Reported { code, detail })
        }
    }
}

} // verus!
