use fullstack_demo::api::{decimal_text, Context, Method, TodoAPI};
use fullstack_demo::schema::Todo;

fn todo(description: &str, completed: bool) -> Todo {
    Todo { description: description.to_string(), completed }
}

#[test]
fn decimal_digits() {
    assert_eq!(decimal_text(0), "0");
    assert_eq!(decimal_text(7), "7");
    assert_eq!(decimal_text(9), "9");
    assert_eq!(decimal_text(10), "10");
    assert_eq!(decimal_text(105), "105");
    assert_eq!(decimal_text(1234567890), "1234567890");
    assert_eq!(decimal_text(usize::MAX), usize::MAX.to_string());
}

#[test]
fn retrieve_gets_the_collection() {
    let call = TodoAPI::new().retrieve();
    assert_eq!(call.method, Method::Get);
    assert_eq!(call.url, "http://localhost:8000/todos");
    assert!(call.body.is_none());
}

#[test]
fn create_posts_the_record() {
    let call = Context::new().todos.create(&todo("buy milk", false)).unwrap();
    assert_eq!(call.method, Method::Post);
    assert_eq!(call.url, "http://localhost:8000/todos");
    assert_eq!(call.body.as_deref(), Some("{\"description\":\"buy milk\",\"completed\":false}"));
}

#[test]
fn update_puts_the_record_at_its_index() {
    let call = TodoAPI::new().update(12, &todo("a", true)).unwrap();
    assert_eq!(call.method, Method::Put);
    assert_eq!(call.url, "http://localhost:8000/todos/12");
    assert_eq!(call.body.as_deref(), Some("{\"description\":\"a\",\"completed\":true}"));
}

#[test]
fn delete_names_the_index() {
    let call = TodoAPI::new().delete(0);
    assert_eq!(call.method, Method::Delete);
    assert_eq!(call.url, "http://localhost:8000/todos/0");
    assert!(call.body.is_none());
    assert_eq!(TodoAPI::new().delete(340).url, "http://localhost:8000/todos/340");
}
