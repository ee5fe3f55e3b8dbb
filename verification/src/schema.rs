//! The todo record and its text form.

use vstd::prelude::*;

use crate::error::RepositoryError;
use crate::json::{
    json_members, json_quoted, member_views, parse_members, quote, Member, MemberView,
};
use crate::repository::Record;

verus! {

/// Position of a record in the ordered collection. A record has no other
/// identity, and a deletion renumbers every record behind it.
pub type TodoID = usize;

/// A todo item: what is to be done, and whether it has been.
#[derive(Debug)]
pub struct Todo {
    pub description: String,
    pub completed: bool,
}

/// A `Todo` as plain values.
pub struct TodoView {
    pub description: Seq<char>,
    pub completed: bool,
}

impl View for Todo {
    type V = TodoView;

    open spec fn view(&self) -> TodoView {
        TodoView { description: self.description@, completed: self.completed }
    }
}

impl Clone for Todo {
    fn clone(&self) -> (copy: Todo)
        ensures
            copy@ == self@,
    {
        Todo { description: self.description.clone(), completed: self.completed }
    }
}

/// The text of a record: a JSON object of two members, `description` first,
/// written without any space.
pub open spec fn record_text(quoted: Seq<char>, completed: bool) -> Seq<char> {
    "{\"description\":"@ + quoted + ",\"completed\":"@ + (if completed {
        "true"@
    } else {
        "false"@
    }) + "}"@
}

/// The text under which a todo is stored and sent.
pub open spec fn todo_text(todo: TodoView) -> Seq<char> {
    record_text(json_quoted(todo.description), todo.completed)
}

/// The first member of that name, if there is one.
pub open spec fn member_named(members: Seq<(Seq<char>, MemberView)>, name: Seq<char>) -> Option<
    MemberView,
>
    decreases members.len(),
{
    if members.len() == 0 {
        None
    } else if members[0].0 == name {
        Some(members[0].1)
    } else {
        member_named(members.drop_first(), name)
    }
}

/// The todo that an object's members spell: its `description` must be a
/// string and its `completed` a boolean; members of other names do not
/// count. Of several members of one name the first counts; the JSON reader
/// hands out each name once, with the value that the text gave it last.
pub open spec fn todo_of_members(members: Seq<(Seq<char>, MemberView)>) -> Option<TodoView> {
    match (member_named(members, "description"@), member_named(members, "completed"@)) {
        (Some(MemberView::Text(description)), Some(MemberView::Flag(completed))) => Some(
            TodoView { description, completed },
        ),
        _ => None,
    }
}

/// The todo that a text stands for, if it stands for one.
pub open spec fn todo_of_text(text: Seq<char>) -> Option<TodoView> {
    match json_members(text) {
        Some(members) => todo_of_members(members),
        None => None,
    }
}

/// Puts a description, already written as a JSON string, and a flag into the
/// text of a record.
pub fn frame_record(quoted: &str, completed: bool) -> (text: String)
    ensures
        text@ == record_text(quoted@, completed),
{
    let mut text = String::from_str("{\"description\":");
    text.append(quoted);
    text.append(",\"completed\":");
    if completed {
        text.append("true");
    } else {
        text.append("false");
    }
    text.append("}");
    text
}

/// Finds the first member of a name.
fn find_member<'a>(members: &'a Vec<(String, Member)>, name: &str) -> (found: Option<&'a Member>)
    ensures
        match found {
            Some(member) => member_named(member_views(members@), name@) == Some(member@),
            None => member_named(member_views(members@), name@) is None,
        },
{
    let wanted = String::from_str(name);
    let ghost views = member_views(members@);
    let mut i: usize = 0;
    assert(views.skip(0) == views);
    while i < members.len()
        invariant
            i <= members.len(),
            wanted@ == name@,
            views == member_views(members@),
            member_named(views, name@) == member_named(views.skip(i as int), name@),
        decreases members.len() - i,
    {
        proof {
            let rest = views.skip(i as int);
            assert(rest[0] == views[i as int]);
            assert(rest.drop_first() == views.skip(i + 1));
        }
        if members[i].0 == wanted {
            return Some(&members[i].1);
        }
        i += 1;
    }
    None
}

/// Reads a todo out of the members of a JSON object.
pub fn select_todo(members: &Vec<(String, Member)>) -> (todo: Option<Todo>)
    ensures
        match todo {
            Some(todo) => todo_of_members(member_views(members@)) == Some(todo@),
            None => todo_of_members(member_views(members@)) is None,
        },
{
    let description = find_member(members, "description");
    let completed = find_member(members, "completed");
    match (description, completed) {
        (Some(Member::Text(description)), Some(Member::Flag(completed))) => Some(
            Todo { description: description.clone(), completed: *completed },
        ),
        _ => None,
    }
}

impl Todo {
    /// Writes the todo as JSON: the text under which it is stored and sent.
    /// Every todo has one.
    pub fn to_json(&self) -> (r: Result<String, RepositoryError>)
        ensures
            r matches Ok(text) && text@ == todo_text(self@),
    {
        match quote(self.description.as_str()) {
            Ok(quoted) => Ok(frame_record(quoted.as_str(), self.completed)),
            Err(error) => Err(RepositoryError::from(error)),
        }
    }

    /// Reads a todo from a text, which must be one JSON object with a string
    /// `description` and a boolean `completed`. Where the text gives a
    /// member more than once, the value that it gives last counts. The
    /// failure holds the JSON reader's error where the text is no JSON
    /// object.
    pub fn from_json(text: &str) -> (r: Result<Todo, RepositoryError>)
        ensures
            match r {
                Ok(todo) => todo_of_text(text@) == Some(todo@),
                Err(error) => {
                    &&& todo_of_text(text@) is None
                    &&& error matches RepositoryError::SerializationError(cause)
                    &&& cause is Some <==> json_members(text@) is None
                },
            },
    {
        match parse_members(text) {
            Ok(members) => match select_todo(&members) {
                Some(todo) => Ok(todo),
                None => Err(RepositoryError::SerializationError(None)),
            },
            Err(error) => Err(RepositoryError::from(error)),
        }
    }

    /// Whether a text stands for this todo.
    pub fn is_read_from(&self, text: &str) -> (same: bool)
        ensures
            same == (todo_of_text(text@) == Some(self@)),
    {
        match Todo::from_json(text) {
            Ok(todo) => todo.description == self.description && todo.completed
                == self.completed,
            Err(_) => false,
        }
    }
}

impl Record for Todo {
    open spec fn text_of(value: Self::V) -> Seq<char> {
        todo_text(value)
    }

    open spec fn value_of(text: Seq<char>) -> Option<Self::V> {
        todo_of_text(text)
    }

    /// The JSON of the todo, once it has been read back as the same todo.
    fn encode(&self) -> (r: Result<String, RepositoryError>) {
        match self.to_json() {
            Ok(text) => if self.is_read_from(text.as_str()) {
                Ok(text)
            } else {
                Err(RepositoryError::SerializationError(None))
            },
            Err(error) => Err(error),
        }
    }

    fn decode(text: &str) -> (r: Result<Self, RepositoryError>) {
        Todo::from_json(text)
    }
}

} // verus!
