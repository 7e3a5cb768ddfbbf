//! The in-memory shape of a loaded document graph: one document payload per
//! file, and the snapshot pairing the workspace with its books.

use vstd::prelude::*;
use crate::json::JsonValue;

verus! {

/// One document: its absolute file location and its structured value.
/// Two payloads name the same document exactly when their locations are equal.
#[derive(Debug, PartialEq)]
pub struct FilePayload {
    pub file_path: String,
    pub data: JsonValue,
}

/// One workspace document plus its book documents, in reference order.
#[derive(Debug, PartialEq)]
pub struct WorkspaceSnapshotPayload {
    pub workspace: FilePayload,
    pub books: Vec<FilePayload>,
}

} // verus!
