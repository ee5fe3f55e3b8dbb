//! The calls that the front-end makes to the server, as plain values: what
//! to send where. Sending is left to whoever holds a connection.

use vstd::prelude::*;

use crate::error::RepositoryError;
use crate::schema::{todo_text, Todo, TodoID};

verus! {

/// The method of a call.
#[derive(Clone, Copy, Debug, PartialEq, Eq, Structural)]
pub enum Method {
    Get,
    Post,
    Put,
    Delete,
}

/// A call to the server. A call with a body sends it as JSON.
#[derive(Debug)]
pub struct ApiRequest {
    pub method: Method,
    pub url: String,
    pub body: Option<String>,
}

/// An `ApiRequest` as plain values.
pub struct ApiRequestView {
    pub method: Method,
    pub url: Seq<char>,
    pub body: Option<Seq<char>>,
}

impl View for ApiRequest {
    type V = ApiRequestView;

    open spec fn view(&self) -> ApiRequestView {
        ApiRequestView {
            method: self.method,
            url: self.url@,
            body: match self.body {
                Some(body) => Some(body@),
                None => None,
            },
        }
    }
}

/// The character of a digit.
pub open spec fn digit(value: nat) -> char {
    if value == 0 {
        '0'
    } else if value == 1 {
        '1'
    } else if value == 2 {
        '2'
    } else if value == 3 {
        '3'
    } else if value == 4 {
        '4'
    } else if value == 5 {
        '5'
    } else if value == 6 {
        '6'
    } else if value == 7 {
        '7'
    } else if value == 8 {
        '8'
    } else {
        '9'
    }
}

/// A number in decimal digits, without leading zeros.
pub open spec fn decimal(value: nat) -> Seq<char>
    decreases value,
{
    if value < 10 {
        seq![digit(value)]
    } else {
        decimal(value / 10).push(digit(value % 10))
    }
}

/// The address of the collection.
pub open spec fn collection_url() -> Seq<char> {
    "http://localhost:8000/todos"@
}

/// The address of the record at an index.
pub open spec fn record_url(id: nat) -> Seq<char> {
    collection_url() + "/"@ + decimal(id)
}

/// One digit as text.
fn digit_text(value: usize) -> (text: &'static str)
    requires
        value < 10,
    ensures
        text@ == seq![digit(value as nat)],
{
    proof {
        reveal_strlit("0");
        reveal_strlit("1");
        reveal_strlit("2");
        reveal_strlit("3");
        reveal_strlit("4");
        reveal_strlit("5");
        reveal_strlit("6");
        reveal_strlit("7");
        reveal_strlit("8");
        reveal_strlit("9");
    }
    let text = if value == 0 {
        "0"
    } else if value == 1 {
        "1"
    } else if value == 2 {
        "2"
    } else if value == 3 {
        "3"
    } else if value == 4 {
        "4"
    } else if value == 5 {
        "5"
    } else if value == 6 {
        "6"
    } else if value == 7 {
        "7"
    } else if value == 8 {
        "8"
    } else {
        "9"
    };
    assert(text@ == seq![digit(value as nat)]);
    text
}

/// Writes a number in decimal digits.
pub fn decimal_text(value: usize) -> (text: String)
    ensures
        text@ == decimal(value as nat),
    decreases value,
{
    if value < 10 {
        String::from_str(digit_text(value))
    } else {
        let mut text = decimal_text(value / 10);
        text.append(digit_text(value % 10));
        assert(text@ == decimal(value as nat / 10).push(digit(value as nat % 10)));
        text
    }
}

/// The client of the todo resource.
#[derive(Debug)]
pub struct TodoAPI {}

impl TodoAPI {
    pub fn new() -> (api: TodoAPI) {
        TodoAPI {  }
    }

    /// The address of the record at an index.
    fn url_of(id: TodoID) -> (url: String)
        ensures
            url@ == record_url(id as nat),
    {
        let mut url = String::from_str("http://localhost:8000/todos");
        url.append("/");
        let number = decimal_text(id);
        url.append(number.as_str());
        url
    }

    /// The call that fetches the whole list.
    pub fn retrieve(&self) -> (call: ApiRequest)
        ensures
            call@ == (ApiRequestView { method: Method::Get, url: collection_url(), body: None }),
    {
        ApiRequest {
            method: Method::Get,
            url: String::from_str("http://localhost:8000/todos"),
            body: None,
        }
    }

    /// The call that appends a todo.
    pub fn create(&self, todo: &Todo) -> (r: Result<ApiRequest, RepositoryError>)
        ensures
            r matches Ok(call) && call@ == (ApiRequestView {
                method: Method::Post,
                url: collection_url(),
                body: Some(todo_text(todo@)),
            }),
    {
        match todo.to_json() {
            Ok(body) => Ok(
                ApiRequest {
                    method: Method::Post,
                    url: String::from_str("http://localhost:8000/todos"),
                    body: Some(body),
                },
            ),
            Err(error) => Err(error),
        }
    }

    /// The call that overwrites the todo at an index.
    pub fn update(&self, id: TodoID, todo: &Todo) -> (r: Result<ApiRequest, RepositoryError>)
        ensures
            r matches Ok(call) && call@ == (ApiRequestView {
                method: Method::Put,
                url: record_url(id as nat),
                body: Some(todo_text(todo@)),
            }),
    {
        match todo.to_json() {
            Ok(body) => Ok(
                ApiRequest { method: Method::Put, url: TodoAPI::url_of(id), body: Some(body) },
            ),
            Err(error) => Err(error),
        }
    }

    /// The call that deletes the todo at an index.
    pub fn delete(&self, id: TodoID) -> (call: ApiRequest)
        ensures
            call@ == (ApiRequestView {
                method: Method::Delete,
                url: record_url(id as nat),
                body: None,
            }),
    {
        ApiRequest { method: Method::Delete, url: TodoAPI::url_of(id), body: None }
    }
}

/// What a page needs beside its own state: the client of the todo resource.
#[derive(Debug)]
pub struct Context {
    pub todos: TodoAPI,
}

impl Context {
    pub fn new() -> (context: Context) {
        Context { todos: TodoAPI::new() }
    }
}

} // verus!
