//! Saving: the exact sequence of file writes a snapshot is persisted with —
//! the workspace document first, then every book in snapshot order, each
//! rendered with a single trailing newline. The caller performs the writes in
//! this order and stops at the first failure, so that a mid-sequence failure
//! leaves earlier files written and later files untouched.

use vstd::prelude::*;
use crate::json::JsonModel;
use crate::paths::{workspace_dir_of, join_of};
use crate::payload::WorkspaceSnapshotPayload;
use crate::render::{pretty, to_pretty_text};
use crate::resolve::{books_of, entry_data_path, LoadState};

verus! {

/// The on-disk text of a document value: its rendered form plus exactly one
/// trailing newline.
pub open spec fn rendered(m: JsonModel) -> Seq<char> {
    pretty(m, Seq::empty()) + seq!['\n']
}

/// One pending file write.
pub struct FileWrite {
    pub path: String,
    pub content: String,
}

/// The write sequence a snapshot is saved with: the workspace document at
/// index zero, then the books in snapshot order.
pub open spec fn save_plan(s: WorkspaceSnapshotPayload) -> Seq<(Seq<char>, Seq<char>)> {
    Seq::new(
        s.books@.len() + 1,
        |i: int|
            if i == 0 {
                (s.workspace.file_path@, rendered(s.workspace.data@))
            } else {
                (s.books@[i - 1].file_path@, rendered(s.books@[i - 1].data@))
            },
    )
}

/// The writes that persist `snapshot`, in the order they must be performed.
pub fn save_actions(snapshot: &WorkspaceSnapshotPayload) -> (r: Vec<FileWrite>)
    ensures
        r@.len() == save_plan(*snapshot).len(),
        forall|i: int|
            0 <= i < r@.len() ==> (#[trigger] r@[i].path@, r@[i].content@) == save_plan(
                *snapshot,
            )[i],
{
    let mut writes: Vec<FileWrite> = Vec::new();
    let workspace_text = document_text(&snapshot.workspace.data);
    writes.push(
        FileWrite { path: clone_string(&snapshot.workspace.file_path), content: workspace_text },
    );
    let n = snapshot.books.len();
    let mut i: usize = 0;
    while i < n
        invariant
            i <= n,
            n == snapshot.books@.len(),
            writes@.len() == i + 1,
            forall|j: int|
                0 <= j < i + 1 ==> (#[trigger] writes@[j].path@, writes@[j].content@) == save_plan(
                    *snapshot,
                )[j],
        decreases n - i,
    {
        let book_text = document_text(&snapshot.books[i].data);
        writes.push(
            FileWrite { path: clone_string(&snapshot.books[i].file_path), content: book_text },
        );
        i = i + 1;
    }
    writes
}

/// The full on-disk text of one document value, trailing newline included.
pub fn document_text(data: &crate::json::JsonValue) -> (r: String)
    ensures
        r@ == rendered(data@),
{
    let text = to_pretty_text(data);
    let r = text.concat("\n");
    proof {
        reveal_strlit("\n");
        assert(r@ =~= rendered(data@));
    }
    r
}

fn clone_string(s: &String) -> (r: String)
    ensures
        r@ == s@,
{
    String::from_str(s.as_str())
}

/// Order preservation: a completed resolution lists its books one per entry
/// of the workspace's `books` array, in entry order, each at the location its
/// `dataPath` resolves to against the workspace directory.
pub proof fn lemma_snapshot_order(st: LoadState, snapshot: WorkspaceSnapshotPayload)
    requires
        st.inv(),
        st.index == st.entries().len(),
        snapshot.workspace == st.workspace,
        snapshot.books == st.loaded,
    ensures
        snapshot.books@.len() == books_of(snapshot.workspace.data@).len(),
        forall|i: int|
            0 <= i < snapshot.books@.len() ==> (#[trigger] snapshot.books@[i].file_path@)
                == join_of(
                workspace_dir_of(snapshot.workspace.file_path@),
                entry_data_path(books_of(snapshot.workspace.data@)[i])->0,
            ),
{
}

/// Round trip: saving a freshly completed snapshot writes the workspace
/// document back to the location it was loaded from, and each book to the
/// location its entry resolved to, in entry order, each holding the rendered
/// form of exactly the value that was read for it.
pub proof fn lemma_load_save_round_trip(st: LoadState, snapshot: WorkspaceSnapshotPayload)
    requires
        st.inv(),
        st.index == st.entries().len(),
        snapshot.workspace == st.workspace,
        snapshot.books == st.loaded,
    ensures
        save_plan(snapshot).len() == 1 + books_of(st.workspace.data@).len(),
        save_plan(snapshot)[0] == (st.workspace.file_path@, rendered(st.workspace.data@)),
        forall|i: int|
            0 <= i < books_of(st.workspace.data@).len() ==> (#[trigger] save_plan(snapshot)[i + 1])
                == (
                join_of(
                    workspace_dir_of(st.workspace.file_path@),
                    entry_data_path(books_of(st.workspace.data@)[i])->0,
                ),
                rendered(st.loaded@[i].data@),
            ),
{
    lemma_snapshot_order(st, snapshot);
    assert forall|i: int| 0 <= i < books_of(st.workspace.data@).len() implies (
    #[trigger] save_plan(snapshot)[i + 1]) == (
        join_of(
            workspace_dir_of(st.workspace.file_path@),
            entry_data_path(books_of(st.workspace.data@)[i])->0,
        ),
        rendered(st.loaded@[i].data@),
    ) by {
        assert(save_plan(snapshot)[i + 1] == (
            snapshot.books@[i].file_path@,
            rendered(snapshot.books@[i].data@),
        ));
        assert(snapshot.books@[i].file_path@ == join_of(
            workspace_dir_of(snapshot.workspace.file_path@),
            entry_data_path(books_of(snapshot.workspace.data@)[i])->0,
        ));
    }
}

} // verus!
