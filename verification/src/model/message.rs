//! The messages that the main window's parts send to its event loop.

use vstd::prelude::*;

verus! {

/// Something that happened in one part of the main window and that another
/// part has to act on.
#[derive(Debug, Clone)]
pub enum Message {
    /// The labels or their states have changed: the label list is stale.
    LabelTableInvalidated,
    /// The entries that match have changed: the entry table is stale.
    EntryTableInvalidated,
    /// The header of this column of the entry table was clicked.
    EntryTableSortCol(i32),
    /// Another entry is selected, or none.
    EntryChanged(Option<usize>),
    /// The context menu is asked for on these rows of the entry table.
    EntryShowContextMenu(Vec<u32>),
    /// The files of the selected entry have changed: the file table is stale.
    FileTableInvalidated,
    /// The header of this column of the file table was clicked.
    FileTableSortCol(i32),
    /// Another file is selected.
    FileTableChanged(usize),
    /// The context menu is asked for on these rows of the file table.
    FileShowContextMenu(Vec<u32>),
    /// The selected file is to be opened.
    FileTableOpen,
    /// A long task has begun.
    ShowLoading,
    /// The long task has ended.
    HideLoading,
}

impl Message {
    /// The message that follows a redraw of the entry table: the first of
    /// the rows that are selected is the entry now shown, and where no row
    /// is selected none is.
    pub fn entry_changed(selected: &Vec<u32>) -> (message: Message)
        ensures
            message == (if selected@.len() > 0 {
                Message::EntryChanged(Some(selected@[0] as usize))
            } else {
                Message::EntryChanged(None)
            }),
    {
        if selected.len() > 0 {
            Message::EntryChanged(Some(selected[0] as usize))
        } else {
            Message::EntryChanged(None)
        }
    }
}

} // verus!
