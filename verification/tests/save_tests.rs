use workspace_snapshot::json::JsonValue;
use workspace_snapshot::payload::{FilePayload, WorkspaceSnapshotPayload};
use workspace_snapshot::save::save_actions;
use workspace_snapshot::text::failure_message;

fn snapshot_with_three_books() -> WorkspaceSnapshotPayload {
    WorkspaceSnapshotPayload {
        workspace: FilePayload {
            file_path: "/ws/project.json".to_string(),
            data: JsonValue::Object(vec![]),
        },
        books: vec![
            FilePayload {
                file_path: "/ws/a.json".to_string(),
                data: JsonValue::Number("1".to_string()),
            },
            FilePayload {
                file_path: "/ws/b.json".to_string(),
                data: JsonValue::Number("2".to_string()),
            },
            FilePayload {
                file_path: "/ws/c.json".to_string(),
                data: JsonValue::Number("3".to_string()),
            },
        ],
    }
}

#[test]
fn workspace_is_written_first_then_books_in_order() {
    let writes = save_actions(&snapshot_with_three_books());
    let paths: Vec<&str> = writes.iter().map(|w| w.path.as_str()).collect();
    assert_eq!(paths, vec!["/ws/project.json", "/ws/a.json", "/ws/b.json", "/ws/c.json"]);
}

#[test]
fn each_write_holds_the_rendered_document() {
    let writes = save_actions(&snapshot_with_three_books());
    assert_eq!(writes[0].content, "{}\n");
    assert_eq!(writes[1].content, "1\n");
    assert_eq!(writes[2].content, "2\n");
    assert_eq!(writes[3].content, "3\n");
}

#[test]
fn snapshot_without_books_saves_only_the_workspace() {
    let snapshot = WorkspaceSnapshotPayload {
        workspace: FilePayload {
            file_path: "/ws/project.json".to_string(),
            data: JsonValue::Null,
        },
        books: vec![],
    };
    let writes = save_actions(&snapshot);
    assert_eq!(writes.len(), 1);
    assert_eq!(writes[0].path, "/ws/project.json");
    assert_eq!(writes[0].content, "null\n");
}

#[test]
fn failure_message_names_action_path_and_cause() {
    assert_eq!(
        failure_message("read", "/ws/a.json", "file not found"),
        "Failed to read /ws/a.json: file not found"
    );
    assert_eq!(
        failure_message("write", "/out/b.json", "permission denied"),
        "Failed to write /out/b.json: permission denied"
    );
}
