use fullstack_demo::command::{Command, Reply};
use fullstack_demo::error::{BackendFailure, RepositoryError};
use fullstack_demo::memory::MemoryQueue;
use fullstack_demo::repository::{
    decode_all, deleted, list_command, listed, located, lookup_command, push_command, pushed,
    removal_command, replace_command, replaced, QueueRepository, StoreAdapter,
};
use fullstack_demo::schema::Todo;

fn todo(description: &str, completed: bool) -> Todo {
    Todo { description: description.to_string(), completed }
}

fn pairs(todos: &[Todo]) -> Vec<(String, bool)> {
    todos.iter().map(|todo| (todo.description.clone(), todo.completed)).collect()
}

fn pair(description: &str, completed: bool) -> (String, bool) {
    (description.to_string(), completed)
}

fn listing(queue: &mut MemoryQueue) -> Vec<(String, bool)> {
    let all: Vec<Todo> = queue.all().unwrap();
    pairs(&all)
}

fn queue_of(todos: &[Todo]) -> MemoryQueue {
    let mut queue = MemoryQueue::new("todos");
    for todo in todos {
        queue.push(todo).unwrap();
    }
    queue
}

fn raw(queue: &mut MemoryQueue, text: &str) {
    let reply = queue.execute(&Command::PushRight { value: text.to_string() });
    assert!(matches!(reply, Reply::Integer(_)));
}

/// A store adapter that answers from a script and keeps what it was asked.
struct Scripted {
    replies: Vec<Reply>,
    asked: Vec<String>,
}

impl Scripted {
    fn new(mut replies: Vec<Reply>) -> Scripted {
        replies.reverse();
        Scripted { replies, asked: Vec::new() }
    }
}

impl StoreAdapter for Scripted {
    fn key(&self) -> &str {
        "scripted"
    }

    fn execute(&mut self, command: &Command) -> Reply {
        self.asked.push(format!("{:?}", command));
        self.replies.pop().unwrap()
    }
}

impl QueueRepository<Todo> for Scripted {}

fn reported(code: &str, detail: &str) -> Reply {
    Reply::Failed(BackendFailure::Reported {
        code: Some(code.to_string()),
        detail: Some(detail.to_string()),
    })
}

#[test]
fn append_to_empty_collection_then_list() {
    let mut queue = MemoryQueue::new("todos");
    assert_eq!(queue.key(), "todos");
    assert_eq!(listing(&mut queue), vec![]);
    assert_eq!(queue.push(&todo("buy milk", false)).unwrap(), 1);
    assert_eq!(listing(&mut queue), vec![pair("buy milk", false)]);
    assert_eq!(queue.stored(), vec!["{\"description\":\"buy milk\",\"completed\":false}"]);
}

#[test]
fn delete_first_of_two_then_list() {
    let mut queue = queue_of(&[todo("a", false), todo("b", false)]);
    let gone: Todo = queue.delete(0).unwrap();
    assert_eq!((gone.description.as_str(), gone.completed), ("a", false));
    assert_eq!(listing(&mut queue), vec![pair("b", false)]);
}

#[test]
fn a_repeated_replace_succeeds_again() {
    let mut queue = queue_of(&[todo("a", false), todo("b", false)]);
    assert_eq!(queue.replace(1, &todo("B", true)).unwrap(), 1);
    let once = queue.stored();
    assert_eq!(queue.replace(1, &todo("B", true)).unwrap(), 1);
    assert_eq!(queue.stored(), once);
    assert_eq!(queue.key(), "todos");
    let _: Vec<Todo> = queue.all().unwrap();
    assert_eq!(queue.key(), "todos");
}

#[test]
fn replace_only_record_then_list() {
    let mut queue = queue_of(&[todo("a", false)]);
    assert_eq!(queue.replace(0, &todo("a", true)).unwrap(), 0);
    assert_eq!(listing(&mut queue), vec![pair("a", true)]);
}

#[test]
fn appends_are_listed_in_the_order_appended() {
    let mut queue = MemoryQueue::new("todos");
    let names = ["c", "a", "b", "a", "", "z"];
    for (at, name) in names.iter().enumerate() {
        assert_eq!(queue.push(&todo(name, at % 2 == 0)).unwrap(), at as isize + 1);
    }
    let expected: Vec<(String, bool)> =
        names.iter().enumerate().map(|(at, name)| pair(name, at % 2 == 0)).collect();
    assert_eq!(listing(&mut queue), expected);
    assert_eq!(queue.len(), 6);
}

#[test]
fn replace_changes_one_position_only() {
    let mut queue = queue_of(&[todo("a", false), todo("b", false), todo("c", true)]);
    assert_eq!(queue.replace(1, &todo("B", true)).unwrap(), 1);
    assert_eq!(listing(&mut queue), vec![pair("a", false), pair("B", true), pair("c", true)]);
    assert_eq!(queue.replace(2, &todo("C", false)).unwrap(), 2);
    assert_eq!(listing(&mut queue), vec![pair("a", false), pair("B", true), pair("C", false)]);
}

#[test]
fn delete_without_duplicates_removes_that_position() {
    let mut queue = queue_of(&[todo("a", false), todo("b", false), todo("c", false)]);
    let gone: Todo = queue.delete(1).unwrap();
    assert_eq!(gone.description, "b");
    assert_eq!(listing(&mut queue), vec![pair("a", false), pair("c", false)]);
    let gone: Todo = queue.delete(1).unwrap();
    assert_eq!(gone.description, "c");
    assert_eq!(listing(&mut queue), vec![pair("a", false)]);
    let gone: Todo = queue.delete(0).unwrap();
    assert_eq!(gone.description, "a");
    assert_eq!(listing(&mut queue), vec![]);
    assert_eq!(queue.len(), 0);
}

#[test]
fn delete_with_duplicates_removes_the_first_equal_item() {
    let mut queue = MemoryQueue::new("todos");
    raw(&mut queue, "{\"description\":\"a\",\"completed\":false}");
    raw(&mut queue, "{\"description\":\"b\",\"completed\":false}");
    raw(&mut queue, "{\"completed\":false,\"description\":\"a\"}");
    raw(&mut queue, "{\"description\":\"a\",\"completed\":false}");
    let gone: Todo = queue.delete(3).unwrap();
    assert_eq!(gone.description, "a");
    assert_eq!(
        queue.stored(),
        vec![
            "{\"description\":\"b\",\"completed\":false}",
            "{\"completed\":false,\"description\":\"a\"}",
            "{\"description\":\"a\",\"completed\":false}",
        ]
    );
}

#[test]
fn index_at_or_beyond_length_is_out_of_range() {
    let mut queue = queue_of(&[todo("a", false), todo("b", true)]);
    let before = queue.stored();
    for index in [2isize, 3, 100, isize::MAX, -3, -100, isize::MIN] {
        assert!(matches!(
            queue.replace(index, &todo("x", true)),
            Err(RepositoryError::IndexOutOfRange)
        ));
        let gone: Result<Todo, RepositoryError> = queue.delete(index);
        assert!(matches!(gone, Err(RepositoryError::IndexOutOfRange)));
        assert_eq!(queue.stored(), before);
    }
    let mut empty = MemoryQueue::new("todos");
    assert!(matches!(empty.replace(0, &todo("x", true)), Err(RepositoryError::IndexOutOfRange)));
    let gone: Result<Todo, RepositoryError> = empty.delete(0);
    assert!(matches!(gone, Err(RepositoryError::IndexOutOfRange)));
    assert_eq!(empty.len(), 0);
}

#[test]
fn negative_index_counts_from_the_tail() {
    let mut queue = queue_of(&[todo("a", false), todo("b", false), todo("c", false)]);
    assert_eq!(queue.replace(-1, &todo("C", true)).unwrap(), -1);
    assert_eq!(listing(&mut queue), vec![pair("a", false), pair("b", false), pair("C", true)]);
    let gone: Todo = queue.delete(-3).unwrap();
    assert_eq!(gone.description, "a");
    assert_eq!(listing(&mut queue), vec![pair("b", false), pair("C", true)]);
}

#[test]
fn listing_passes_over_items_that_are_no_records() {
    let mut queue = MemoryQueue::new("todos");
    raw(&mut queue, "garbage");
    queue.push(&todo("a", false)).unwrap();
    raw(&mut queue, "{\"description\":\"no flag\"}");
    queue.push(&todo("b", true)).unwrap();
    raw(&mut queue, "");
    assert_eq!(listing(&mut queue), vec![pair("a", false), pair("b", true)]);
    assert_eq!(queue.len(), 5);
}

#[test]
fn replace_behind_a_corrupt_item_shows_at_an_earlier_position() {
    let mut queue = MemoryQueue::new("todos");
    raw(&mut queue, "garbage");
    queue.push(&todo("a", false)).unwrap();
    assert_eq!(queue.replace(1, &todo("A", true)).unwrap(), 1);
    assert_eq!(listing(&mut queue), vec![pair("A", true)]);
}

#[test]
fn delete_of_a_corrupt_item_removes_it_and_fails() {
    let mut queue = MemoryQueue::new("todos");
    queue.push(&todo("a", false)).unwrap();
    raw(&mut queue, "garbage");
    let gone: Result<Todo, RepositoryError> = queue.delete(1);
    assert!(matches!(gone, Err(RepositoryError::SerializationError(_))));
    assert_eq!(queue.stored(), vec!["{\"description\":\"a\",\"completed\":false}"]);
}

#[test]
fn commands_of_the_operations() {
    assert!(matches!(list_command(), Command::Range { start: 0, stop: -1 }));
    match push_command(&todo("a", true)).unwrap() {
        Command::PushRight { value } => {
            assert_eq!(value, "{\"description\":\"a\",\"completed\":true}")
        }
        other => panic!("{:?}", other),
    }
    match replace_command(4, &todo("a", false)).unwrap() {
        Command::SetAt { index, value } => {
            assert_eq!(index, 4);
            assert_eq!(value, "{\"description\":\"a\",\"completed\":false}");
        }
        other => panic!("{:?}", other),
    }
    assert!(matches!(lookup_command(-2), Command::ItemAt { index: -2 }));
    match removal_command("text") {
        Command::Remove { count, value } => {
            assert_eq!(count, 1);
            assert_eq!(value, "text");
        }
        other => panic!("{:?}", other),
    }
}

#[test]
fn results_for_each_reply() {
    let items = vec![
        "{\"description\":\"a\",\"completed\":false}".to_string(),
        "x".to_string(),
        "{\"description\":\"b\",\"completed\":true}".to_string(),
    ];
    let all: Vec<Todo> = decode_all(&items);
    assert_eq!(pairs(&all), vec![pair("a", false), pair("b", true)]);
    let all: Vec<Todo> = listed(Reply::Items(items)).unwrap();
    assert_eq!(pairs(&all), vec![pair("a", false), pair("b", true)]);
    let none: Vec<Todo> = listed(Reply::Items(vec![])).unwrap();
    assert!(none.is_empty());
    let wrong: Result<Vec<Todo>, RepositoryError> = listed(Reply::Nil);
    assert!(matches!(
        wrong,
        Err(RepositoryError::BackendError(BackendFailure::UnexpectedReply))
    ));

    assert_eq!(pushed(Reply::Integer(7)).unwrap(), 7);
    assert!(matches!(
        pushed(Reply::Done),
        Err(RepositoryError::BackendError(BackendFailure::UnexpectedReply))
    ));
    assert!(matches!(
        pushed(Reply::OutOfRange),
        Err(RepositoryError::BackendError(BackendFailure::UnexpectedReply))
    ));
    assert!(matches!(
        pushed(Reply::Failed(BackendFailure::ListFull)),
        Err(RepositoryError::BackendError(BackendFailure::ListFull))
    ));

    assert_eq!(replaced(3, Reply::Done).unwrap(), 3);
    assert!(matches!(replaced(3, Reply::OutOfRange), Err(RepositoryError::IndexOutOfRange)));
    assert!(matches!(
        replaced(3, Reply::Nil),
        Err(RepositoryError::BackendError(BackendFailure::UnexpectedReply))
    ));
    assert!(matches!(
        replaced(3, Reply::Integer(3)),
        Err(RepositoryError::BackendError(BackendFailure::UnexpectedReply))
    ));

    assert_eq!(located(Reply::Item("t".to_string())).unwrap(), "t");
    assert!(matches!(located(Reply::Nil), Err(RepositoryError::IndexOutOfRange)));
    assert!(matches!(located(Reply::OutOfRange), Err(RepositoryError::IndexOutOfRange)));
    assert!(matches!(
        located(Reply::Done),
        Err(RepositoryError::BackendError(BackendFailure::UnexpectedReply))
    ));

    let text = "{\"description\":\"a\",\"completed\":true}";
    let gone: Todo = deleted(text, Reply::Integer(1)).unwrap();
    assert_eq!((gone.description.as_str(), gone.completed), ("a", true));
    let gone: Todo = deleted(text, Reply::Integer(0)).unwrap();
    assert_eq!(gone.description, "a");
    let gone: Result<Todo, RepositoryError> = deleted("x", Reply::Integer(1));
    assert!(matches!(gone, Err(RepositoryError::SerializationError(_))));
    let gone: Result<Todo, RepositoryError> = deleted(text, Reply::Done);
    assert!(matches!(
        gone,
        Err(RepositoryError::BackendError(BackendFailure::UnexpectedReply))
    ));
}

#[test]
fn a_failure_of_the_store_is_a_backend_error() {
    let mut store = Scripted::new(vec![reported("ERR", "wrong kind of value")]);
    let all: Result<Vec<Todo>, RepositoryError> = store.all();
    match all {
        Err(RepositoryError::BackendError(BackendFailure::Reported { code, detail })) => {
            assert_eq!(code.as_deref(), Some("ERR"));
            assert_eq!(detail.as_deref(), Some("wrong kind of value"));
        }
        other => panic!("{:?}", other.map(|todos| todos.len())),
    }
    assert_eq!(store.asked, vec!["Range { start: 0, stop: -1 }"]);

    let mut store = Scripted::new(vec![reported("LOADING", "busy")]);
    assert!(matches!(
        store.push(&todo("a", false)),
        Err(RepositoryError::BackendError(BackendFailure::Reported { .. }))
    ));
    let mut store = Scripted::new(vec![reported("ERR", "down")]);
    assert!(matches!(
        store.replace(0, &todo("a", false)),
        Err(RepositoryError::BackendError(BackendFailure::Reported { .. }))
    ));
    let mut store = Scripted::new(vec![reported("ERR", "down")]);
    let gone: Result<Todo, RepositoryError> = store.delete(0);
    assert!(matches!(
        gone,
        Err(RepositoryError::BackendError(BackendFailure::Reported { .. }))
    ));
    assert_eq!(store.asked, vec!["ItemAt { index: 0 }"]);
}

#[test]
fn delete_reads_then_removes_by_value() {
    let text = "{\"description\":\"a\",\"completed\":false}";
    let mut store = Scripted::new(vec![Reply::Item(text.to_string()), Reply::Integer(1)]);
    let gone: Todo = store.delete(2).unwrap();
    assert_eq!(gone.description, "a");
    assert_eq!(
        store.asked,
        vec![
            "ItemAt { index: 2 }".to_string(),
            format!("Remove {{ count: 1, value: {:?} }}", text),
        ]
    );

    let mut store = Scripted::new(vec![Reply::Item(text.to_string()), reported("ERR", "down")]);
    let gone: Result<Todo, RepositoryError> = store.delete(2);
    assert!(matches!(
        gone,
        Err(RepositoryError::BackendError(BackendFailure::Reported { .. }))
    ));

    let mut store = Scripted::new(vec![Reply::Nil]);
    let gone: Result<Todo, RepositoryError> = store.delete(2);
    assert!(matches!(gone, Err(RepositoryError::IndexOutOfRange)));
    assert_eq!(store.asked.len(), 1);
}

#[test]
fn replace_and_push_through_a_remote_store() {
    let mut store = Scripted::new(vec![Reply::Done, Reply::OutOfRange, Reply::Integer(4)]);
    assert_eq!(store.replace(1, &todo("a", true)).unwrap(), 1);
    assert!(matches!(store.replace(9, &todo("a", true)), Err(RepositoryError::IndexOutOfRange)));
    assert_eq!(store.push(&todo("b", false)).unwrap(), 4);
    assert_eq!(
        store.asked,
        vec![
            "SetAt { index: 1, value: \"{\\\"description\\\":\\\"a\\\",\\\"completed\\\":true}\" }",
            "SetAt { index: 9, value: \"{\\\"description\\\":\\\"a\\\",\\\"completed\\\":true}\" }",
            "PushRight { value: \"{\\\"description\\\":\\\"b\\\",\\\"completed\\\":false}\" }",
        ]
    );
    assert_eq!(store.key(), "scripted");
}
