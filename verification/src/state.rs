use vstd::prelude::*;

use crate::layout::{ComparableLayoutNode, ComparableTree, LayoutNode, LayoutTree};

verus! {

/// What Arrange remembers of its latest change to a tab, so that it can be undone.
#[derive(Debug)]
pub struct UndoRecord {
    pub workspace_id: String,
    pub tab_id: String,
    pub focused_pane_id: String,
    /// The tree before the change.
    pub before: LayoutNode,
    /// How the layout looked right after the change.
    pub after: ComparableLayoutNode,
}

/// An undo record as a mathematical value.
pub struct RecordModel {
    pub workspace_id: Seq<char>,
    pub tab_id: Seq<char>,
    pub focused_pane_id: Seq<char>,
    pub before: LayoutTree,
    pub after: ComparableTree,
}

impl View for UndoRecord {
    type V = RecordModel;

    open spec fn view(&self) -> RecordModel {
        RecordModel {
            workspace_id: self.workspace_id@,
            tab_id: self.tab_id@,
            focused_pane_id: self.focused_pane_id@,
            before: self.before@,
            after: self.after@,
        }
    }
}

} // verus!
