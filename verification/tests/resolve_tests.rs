use workspace_snapshot::json::JsonValue;
use workspace_snapshot::resolve::{LoadState, LoadStep};
use workspace_snapshot::text::missing_field_message;

fn book_entry(data_path: &str) -> JsonValue {
    JsonValue::Object(vec![(
        "dataPath".to_string(),
        JsonValue::Str(data_path.to_string()),
    )])
}

fn workspace_with_books(entries: Vec<JsonValue>) -> JsonValue {
    JsonValue::Object(vec![("books".to_string(), JsonValue::Array(entries))])
}

#[test]
fn missing_books_key_loads_empty_snapshot() {
    let data = JsonValue::Object(vec![("title".to_string(), JsonValue::Str("x".to_string()))]);
    let state = LoadState::new("/ws/project.json".to_string(), data);
    match state.step() {
        LoadStep::Done { snapshot } => {
            assert_eq!(snapshot.workspace.file_path, "/ws/project.json");
            assert!(snapshot.books.is_empty());
        }
        _ => panic!("expected an immediately complete snapshot"),
    }
}

#[test]
fn books_key_that_is_not_a_list_loads_empty_snapshot() {
    let data = JsonValue::Object(vec![("books".to_string(), JsonValue::Str("nope".to_string()))]);
    let state = LoadState::new("/ws/project.json".to_string(), data);
    match state.step() {
        LoadStep::Done { snapshot } => assert!(snapshot.books.is_empty()),
        _ => panic!("expected an immediately complete snapshot"),
    }
}

#[test]
fn books_load_in_entry_order_at_resolved_paths() {
    let data = workspace_with_books(vec![
        book_entry("notes/book1.json"),
        book_entry("/abs/book2.json"),
    ]);
    let state = LoadState::new("/ws/project.json".to_string(), data);

    let state = match state.step() {
        LoadStep::NeedBook { state, path } => {
            assert_eq!(path, "/ws/notes/book1.json");
            state.supply_book(JsonValue::Number("1".to_string())).unwrap()
        }
        _ => panic!("expected the first book to be requested"),
    };
    let state = match state.step() {
        LoadStep::NeedBook { state, path } => {
            assert_eq!(path, "/abs/book2.json");
            state.supply_book(JsonValue::Number("2".to_string())).unwrap()
        }
        _ => panic!("expected the second book to be requested"),
    };
    match state.step() {
        LoadStep::Done { snapshot } => {
            assert_eq!(snapshot.books.len(), 2);
            assert_eq!(snapshot.books[0].file_path, "/ws/notes/book1.json");
            assert_eq!(snapshot.books[0].data, JsonValue::Number("1".to_string()));
            assert_eq!(snapshot.books[1].file_path, "/abs/book2.json");
            assert_eq!(snapshot.books[1].data, JsonValue::Number("2".to_string()));
        }
        _ => panic!("expected a complete snapshot"),
    }
}

#[test]
fn missing_data_path_fails_with_index_after_earlier_books_load() {
    let bad_entry = JsonValue::Object(vec![(
        "other".to_string(),
        JsonValue::Str("x".to_string()),
    )]);
    let data = workspace_with_books(vec![book_entry("a.json"), bad_entry]);
    let state = LoadState::new("/ws/project.json".to_string(), data);

    // The book before the bad entry is requested (and so read) first.
    let state = match state.step() {
        LoadStep::NeedBook { state, path } => {
            assert_eq!(path, "/ws/a.json");
            state.supply_book(JsonValue::Null).unwrap()
        }
        _ => panic!("expected the first book to be requested"),
    };
    match state.step() {
        LoadStep::Fail { index, message } => {
            assert_eq!(index, 1);
            assert_eq!(message, "books[1].dataPath is missing or invalid");
        }
        _ => panic!("expected the bad entry to abort the load"),
    }
}

#[test]
fn non_string_data_path_fails() {
    let bad_entry = JsonValue::Object(vec![(
        "dataPath".to_string(),
        JsonValue::Number("7".to_string()),
    )]);
    let data = workspace_with_books(vec![bad_entry]);
    let state = LoadState::new("/ws/project.json".to_string(), data);
    match state.step() {
        LoadStep::Fail { index, message } => {
            assert_eq!(index, 0);
            assert_eq!(message, "books[0].dataPath is missing or invalid");
        }
        _ => panic!("expected the bad entry to abort the load"),
    }
}

#[test]
fn missing_field_message_spells_out_the_index() {
    assert_eq!(missing_field_message(0), "books[0].dataPath is missing or invalid");
    assert_eq!(missing_field_message(12), "books[12].dataPath is missing or invalid");
    assert_eq!(missing_field_message(105), "books[105].dataPath is missing or invalid");
}

#[test]
fn relative_path_resolves_under_bare_workspace_name() {
    let data = workspace_with_books(vec![book_entry("b.json")]);
    let state = LoadState::new("project.json".to_string(), data);
    match state.step() {
        LoadStep::NeedBook { path, .. } => assert_eq!(path, "b.json"),
        _ => panic!("expected the book to be requested"),
    }
}
