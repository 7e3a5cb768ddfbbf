use workspace_snapshot::paths::{join_path, workspace_dir};

#[test]
fn workspace_dir_of_nested_file() {
    assert_eq!(workspace_dir("/ws/project.json"), "/ws");
}

#[test]
fn workspace_dir_of_deeper_file() {
    assert_eq!(workspace_dir("/a/b/c/workspace.json"), "/a/b/c");
}

#[test]
fn workspace_dir_of_root_file() {
    assert_eq!(workspace_dir("/project.json"), "/");
}

#[test]
fn workspace_dir_of_bare_file_name() {
    assert_eq!(workspace_dir("project.json"), "");
}

#[test]
fn workspace_dir_of_empty_location_is_current_dir() {
    assert_eq!(workspace_dir(""), ".");
}

#[test]
fn workspace_dir_of_root_is_current_dir() {
    assert_eq!(workspace_dir("/"), ".");
}

#[test]
fn join_relative_path() {
    assert_eq!(join_path("/ws", "notes/book1.json"), "/ws/notes/book1.json");
}

#[test]
fn join_absolute_path_overrides_dir() {
    assert_eq!(join_path("/ws", "/abs/book2.json"), "/abs/book2.json");
}

#[test]
fn join_with_trailing_slash_dir() {
    assert_eq!(join_path("/ws/", "b.json"), "/ws/b.json");
}

#[test]
fn join_with_empty_dir() {
    assert_eq!(join_path("", "b.json"), "b.json");
}

#[test]
fn non_ascii_locations_survive_resolution() {
    assert_eq!(workspace_dir("/wörk/späce.json"), "/wörk");
    assert_eq!(join_path("/wörk", "bücher/band1.json"), "/wörk/bücher/band1.json");
}
