use fullstack_demo::error::RepositoryError;
use fullstack_demo::json::Member;
use fullstack_demo::repository::Record;
use fullstack_demo::schema::{frame_record, select_todo, Todo};

fn todo(description: &str, completed: bool) -> Todo {
    Todo { description: description.to_string(), completed }
}

#[test]
fn encodes_description_then_flag() {
    assert_eq!(
        todo("buy milk", false).to_json().unwrap(),
        "{\"description\":\"buy milk\",\"completed\":false}"
    );
    assert_eq!(todo("", true).to_json().unwrap(), "{\"description\":\"\",\"completed\":true}");
}

#[test]
fn encoding_escapes_what_json_forbids_in_a_string() {
    assert_eq!(
        todo("say \"hi\"\\\n", false).to_json().unwrap(),
        "{\"description\":\"say \\\"hi\\\"\\\\\\n\",\"completed\":false}"
    );
    assert_eq!(
        todo("tab\there\u{1}", true).to_json().unwrap(),
        "{\"description\":\"tab\\there\\u0001\",\"completed\":true}"
    );
}

#[test]
fn frames_a_quoted_description() {
    assert_eq!(frame_record("\"a\"", true), "{\"description\":\"a\",\"completed\":true}");
    assert_eq!(frame_record("\"\"", false), "{\"description\":\"\",\"completed\":false}");
}

#[test]
fn decodes_what_it_encodes() {
    let decoded = Todo::from_json("{\"description\":\"buy milk\",\"completed\":false}").unwrap();
    assert_eq!(decoded.description, "buy milk");
    assert!(!decoded.completed);
}

#[test]
fn decodes_either_member_order_and_spaces() {
    let decoded = Todo::from_json(" { \"completed\" : true ,\n \"description\" : \"walk\" } ").unwrap();
    assert_eq!(decoded.description, "walk");
    assert!(decoded.completed);
}

#[test]
fn decoding_undoes_escapes() {
    let decoded =
        Todo::from_json("{\"description\":\"a\\\"b\\\\c\\u00e9\\n\",\"completed\":true}").unwrap();
    assert_eq!(decoded.description, "a\"b\\c\u{e9}\n");
}

#[test]
fn decoding_passes_over_members_of_other_names() {
    let decoded = Todo::from_json(
        "{\"id\":7,\"description\":\"x\",\"tags\":[\"a\",{\"b\":null}],\"completed\":false}",
    )
    .unwrap();
    assert_eq!(decoded.description, "x");
    assert!(!decoded.completed);
}

#[test]
fn decoding_refuses_what_is_no_record() {
    let refused = [
        "",
        "garbage",
        "null",
        "[\"a\",false]",
        "\"a\"",
        "{}",
        "{\"description\":\"a\"}",
        "{\"completed\":true}",
        "{\"description\":1,\"completed\":true}",
        "{\"description\":null,\"completed\":true}",
        "{\"description\":\"a\",\"completed\":\"true\"}",
        "{\"description\":\"a\",\"completed\":0}",
        "{\"description\":\"a\",\"completed\":false",
        "{\"description\":\"a\",\"completed\":false} x",
        "{\"Description\":\"a\",\"completed\":false}",
    ];
    for text in refused {
        assert!(
            matches!(Todo::from_json(text), Err(RepositoryError::SerializationError(_))),
            "{}",
            text
        );
    }
}

#[test]
fn round_trip_of_text_and_record() {
    let samples = [
        todo("buy milk", false),
        todo("", true),
        todo("quote \" backslash \\ slash / newline \n tab \t", false),
        todo("caf\u{e9} \u{1f600} \u{0} \u{7f} \u{2028}", true),
        todo("{\"description\":\"nested\",\"completed\":true}", false),
    ];
    for sample in samples {
        let text = sample.to_json().unwrap();
        let back = Todo::from_json(&text).unwrap();
        assert_eq!(back.description, sample.description);
        assert_eq!(back.completed, sample.completed);
        assert_eq!(back.to_json().unwrap(), text);
        assert!(sample.is_read_from(&text));
        assert_eq!(Record::encode(&sample).unwrap(), text);
        let again: Todo = Record::decode(&text).unwrap();
        assert_eq!(Record::encode(&again).unwrap(), text);
    }
}

#[test]
fn is_read_from_tells_other_records_apart() {
    let sample = todo("a", false);
    assert!(sample.is_read_from("{\"completed\":false,\"description\":\"a\"}"));
    assert!(!sample.is_read_from("{\"description\":\"a\",\"completed\":true}"));
    assert!(!sample.is_read_from("{\"description\":\"b\",\"completed\":false}"));
    assert!(!sample.is_read_from("a"));
}

#[test]
fn clone_keeps_both_fields() {
    let copy = todo("a", true).clone();
    assert_eq!(copy.description, "a");
    assert!(copy.completed);
}

#[test]
fn selects_the_two_members_by_name_and_kind() {
    let members = vec![
        ("completed".to_string(), Member::Flag(true)),
        ("other".to_string(), Member::Number),
        ("description".to_string(), Member::Text("a".to_string())),
    ];
    let found = select_todo(&members).unwrap();
    assert_eq!(found.description, "a");
    assert!(found.completed);

    let first_wins = vec![
        ("description".to_string(), Member::Text("first".to_string())),
        ("description".to_string(), Member::Text("second".to_string())),
        ("completed".to_string(), Member::Flag(false)),
    ];
    assert_eq!(select_todo(&first_wins).unwrap().description, "first");

    let wrong_kind = vec![
        ("description".to_string(), Member::Null),
        ("completed".to_string(), Member::Flag(false)),
    ];
    assert!(select_todo(&wrong_kind).is_none());
    let wrong_flag = vec![
        ("description".to_string(), Member::Text("a".to_string())),
        ("completed".to_string(), Member::Text("true".to_string())),
    ];
    assert!(select_todo(&wrong_flag).is_none());
    assert!(select_todo(&vec![]).is_none());
    assert!(select_todo(&vec![("description".to_string(), Member::List)]).is_none());
    assert!(select_todo(&vec![("completed".to_string(), Member::Object)]).is_none());
}

#[test]
fn serde_json_error_becomes_serialization_error() {
    let error = serde_json::from_str::<serde_json::Value>("{").unwrap_err();
    let said = error.to_string();
    match RepositoryError::from(error) {
        RepositoryError::SerializationError(Some(kept)) => assert_eq!(kept.to_string(), said),
        other => panic!("{:?}", other),
    }
}

#[test]
fn a_failure_holds_the_reader_s_error_where_the_reader_failed() {
    match Todo::from_json("{\"description\":\"a\",") {
        Err(RepositoryError::SerializationError(Some(cause))) => {
            assert!(cause.is_eof());
            assert_eq!(cause.line(), 1);
        }
        other => panic!("{:?}", other),
    }
    assert!(matches!(
        Todo::from_json("[\"a\",false]"),
        Err(RepositoryError::SerializationError(Some(_)))
    ));
    assert!(matches!(
        Todo::from_json("{\"description\":\"a\"}"),
        Err(RepositoryError::SerializationError(None))
    ));
    assert!(matches!(
        Todo::from_json("{\"description\":\"a\",\"completed\":1}"),
        Err(RepositoryError::SerializationError(None))
    ));
}

#[test]
fn a_repeated_member_counts_as_given_last() {
    let decoded = Todo::from_json(
        "{\"description\":\"first\",\"completed\":false,\"description\":\"last\"}",
    )
    .unwrap();
    assert_eq!(decoded.description, "last");
    let decoded = Todo::from_json(
        "{\"completed\":\"no flag\",\"description\":\"a\",\"completed\":true}",
    )
    .unwrap();
    assert!(decoded.completed);
    assert!(Todo::from_json(
        "{\"completed\":true,\"description\":\"a\",\"completed\":null}"
    )
    .is_err());
}
