//! Reference resolution: walking the workspace's book entries in order,
//! resolving each `dataPath` against the workspace directory, and assembling
//! the snapshot. The walk is a step machine so that the caller can read each
//! book file between steps, and it fails fast: the first entry without a
//! usable path aborts the whole load, after every earlier book was already
//! read, and no partial snapshot is returned.

use vstd::prelude::*;
use crate::json::{JsonValue, JsonModel, json_model, get_field};
use crate::paths::{workspace_dir_of, join_of, workspace_dir, join_path};
use crate::payload::{FilePayload, WorkspaceSnapshotPayload};
use crate::text::{missing_field_text, missing_field_message};

verus! {

/// The workspace's book reference list: the value under its `books` key when
/// that is an array, and empty otherwise (an absent or malformed list is not
/// an error).
pub open spec fn books_of(ws: JsonModel) -> Seq<JsonModel> {
    match get_field(ws, "books"@) {
        Some(m) => if m is Array {
            m->Array_0
        } else {
            Seq::empty()
        },
        None => Seq::empty(),
    }
}

/// The relative path a book entry names: its `dataPath` string field, or
/// `None` when that field is missing or not a string.
pub open spec fn entry_data_path(e: JsonModel) -> Option<Seq<char>> {
    match get_field(e, "dataPath"@) {
        Some(m) => if m is Str {
            Some(m->Str_0)
        } else {
            None
        },
        None => None,
    }
}

/// A resolution in progress: the workspace document, the directory its
/// references resolve against, and the books read so far, one per entry
/// below `index`.
pub struct LoadState {
    pub workspace: FilePayload,
    pub dir: String,
    pub index: usize,
    pub loaded: Vec<FilePayload>,
}

/// What the resolver asks for next.
pub enum LoadStep {
    /// Read and parse the file at `path`, then hand its value to
    /// `supply_book` on `state`.
    NeedBook { state: LoadState, path: String },
    /// Every entry is resolved; the snapshot is complete.
    Done { snapshot: WorkspaceSnapshotPayload },
    /// The entry at `index` has no usable `dataPath`; the load is aborted.
    Fail { index: usize, message: String },
}

impl LoadState {
    /// The model of the workspace's book entries.
    pub open spec fn entries(self) -> Seq<JsonModel> {
        books_of(self.workspace.data@)
    }

    /// Well-formedness: the directory is the workspace's, every entry below
    /// `index` has a usable path, and the books read so far sit at the
    /// locations those entries resolve to, in entry order.
    pub open spec fn inv(self) -> bool {
        &&& self.dir@ == workspace_dir_of(self.workspace.file_path@)
        &&& self.index <= self.entries().len()
        &&& self.loaded@.len() == self.index
        &&& forall|i: int|
            0 <= i < self.index ==> {
                &&& (#[trigger] entry_data_path(self.entries()[i])) is Some
                &&& self.loaded@[i].file_path@ == join_of(
                    self.dir@,
                    entry_data_path(self.entries()[i])->0,
                )
            }
    }

    /// Begins a resolution for the workspace document at `workspace_path`
    /// whose parsed value is `workspace_data`.
    pub fn new(workspace_path: String, workspace_data: JsonValue) -> (st: LoadState)
        ensures
            st.inv(),
            st.workspace.file_path == workspace_path,
            st.workspace.data == workspace_data,
            st.index == 0,
            st.loaded@.len() == 0,
            st.dir@ == workspace_dir_of(workspace_path@),
    {
        let dir = workspace_dir(workspace_path.as_str());
        LoadState {
            workspace: FilePayload { file_path: workspace_path, data: workspace_data },
            dir,
            index: 0,
            loaded: Vec::new(),
        }
    }

    /// Decides the next step: the resolved location of entry `index`, the
    /// finished snapshot once every entry is resolved, or the index-naming
    /// failure on the first entry without a usable path.
    pub fn step(self) -> (r: LoadStep)
        requires
            self.inv(),
        ensures
            self.index == self.entries().len() ==> (r matches LoadStep::Done { snapshot }
                && snapshot.workspace == self.workspace
                && snapshot.books == self.loaded),
            self.index < self.entries().len() && entry_data_path(self.entries()[self.index as int]) is None
                ==> (r matches LoadStep::Fail { index, message }
                && index == self.index
                && message@ == missing_field_text(self.index as nat)),
            self.index < self.entries().len() && entry_data_path(self.entries()[self.index as int]) is Some
                ==> (r matches LoadStep::NeedBook { state, path }
                && state == self
                && path@ == join_of(self.dir@, entry_data_path(self.entries()[self.index as int])->0)),
    {
        let entry_count = match books_list(&self.workspace.data) {
            Some(items) => items.len(),
            None => 0,
        };
        if self.index == entry_count {
            return LoadStep::Done {
                snapshot: WorkspaceSnapshotPayload { workspace: self.workspace, books: self.loaded },
            };
        }
        let path = match self.resolve_entry_path() {
            Some(p) => p,
            None => {
                let message = missing_field_message(self.index);
                return LoadStep::Fail { index: self.index, message };
            },
        };
        LoadStep::NeedBook { state: self, path }
    }

    /// Records the value read for entry `index` and moves to the next entry.
    /// Returns `None` exactly when there is no current entry with a usable
    /// path to record it under.
    pub fn supply_book(self, data: JsonValue) -> (r: Option<LoadState>)
        requires
            self.inv(),
        ensures
            r is Some <==> self.index < self.entries().len() && entry_data_path(
                self.entries()[self.index as int],
            ) is Some,
            r matches Some(st) ==> {
                &&& st.inv()
                &&& st.workspace == self.workspace
                &&& st.dir == self.dir
                &&& st.index == self.index + 1
                &&& st.loaded@.len() == self.loaded@.len() + 1
                &&& forall|i: int| 0 <= i < self.loaded@.len() ==> st.loaded@[i] == self.loaded@[i]
                &&& st.loaded@.last().file_path@ == join_of(
                    self.dir@,
                    entry_data_path(self.entries()[self.index as int])->0,
                )
                &&& st.loaded@.last().data == data
            },
    {
        let path = match self.resolve_entry_path() {
            Some(p) => p,
            None => {
                return None;
            },
        };
        let entry_count = match books_list(&self.workspace.data) {
            Some(items) => items.len(),
            None => 0,
        };
        proof {
            assert(self.index < entry_count);
        }
        let LoadState { workspace, dir, index, mut loaded } = self;
        loaded.push(FilePayload { file_path: path, data });
        Some(LoadState { workspace, dir, index: index + 1, loaded })
    }

    /// The resolved location of the current entry, or `None` when the entry
    /// list is exhausted or the entry has no usable path.
    fn resolve_entry_path(&self) -> (r: Option<String>)
        requires
            self.inv(),
        ensures
            r is Some <==> self.index < self.entries().len() && entry_data_path(
                self.entries()[self.index as int],
            ) is Some,
            r matches Some(p) ==> p@ == join_of(
                self.dir@,
                entry_data_path(self.entries()[self.index as int])->0,
            ),
    {
        let items = match books_list(&self.workspace.data) {
            Some(items) => items,
            None => {
                return None;
            },
        };
        if self.index >= items.len() {
            return None;
        }
        let entry = &items[self.index];
        let field = match entry.get("dataPath") {
            Some(v) => v,
            None => {
                return None;
            },
        };
        let rel = match field.as_str() {
            Some(s) => s,
            None => {
                return None;
            },
        };
        Some(join_path(self.dir.as_str(), rel.as_str()))
    }
}

/// The workspace value's book entry list, when there is one.
fn books_list<'a>(data: &'a JsonValue) -> (r: Option<&'a Vec<JsonValue>>)
    ensures
        match r {
            Some(items) => {
                &&& books_of(data@).len() == items@.len()
                &&& forall|i: int|
                    0 <= i < items@.len() ==> books_of(data@)[i] == json_model(items@[i])
            },
            None => books_of(data@).len() == 0,
        },
{
    let list = match data.get("books") {
        Some(v) => v,
        None => {
            return None;
        },
    };
    match list.as_array() {
        Some(items) => Some(items),
        None => None,
    }
}

} // verus!
