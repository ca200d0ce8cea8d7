//! The context menu of the entry table: what it offers and what a choice
//! from it means.

use vstd::prelude::*;

verus! {

/// Something that can be done with the selected entries.
#[derive(Debug, Clone, Copy, PartialEq, Eq, Structural)]
pub enum EntryMenuItem {
    /// Choose the labels of the entries.
    Label,
    /// Delete the entries.
    DeleteEntry,
    /// Rename the first of the entries.
    RenameEntry,
    /// Grade the entries.
    Grade,
    /// Move each entry that is a file into a directory of its own.
    MoveToDir,
    /// Open the directory of the first of the entries.
    OpenDir,
}

/// The text of an item, as the menu shows it.
pub open spec fn text_of(item: EntryMenuItem) -> Seq<char> {
    match item {
        EntryMenuItem::Label => "Label >"@,
        EntryMenuItem::DeleteEntry => "Delete Entry"@,
        EntryMenuItem::RenameEntry => "Rename Entry"@,
        EntryMenuItem::Grade => "Grade"@,
        EntryMenuItem::MoveToDir => "Move to Dir"@,
        EntryMenuItem::OpenDir => "Open dir"@,
    }
}

/// The items that the menu offers, from top to bottom.
pub open spec fn menu_for(has_file: bool) -> Seq<EntryMenuItem> {
    seq![
        EntryMenuItem::Label,
        EntryMenuItem::DeleteEntry,
        EntryMenuItem::RenameEntry,
        EntryMenuItem::Grade,
        if has_file {
            EntryMenuItem::MoveToDir
        } else {
            EntryMenuItem::OpenDir
        },
    ]
}

/// The text of an item, as the menu shows it.
pub fn item_text(item: EntryMenuItem) -> (text: &'static str)
    ensures
        text@ == text_of(item),
{
    match item {
        EntryMenuItem::Label => "Label >",
        EntryMenuItem::DeleteEntry => "Delete Entry",
        EntryMenuItem::RenameEntry => "Rename Entry",
        EntryMenuItem::Grade => "Grade",
        EntryMenuItem::MoveToDir => "Move to Dir",
        EntryMenuItem::OpenDir => "Open dir",
    }
}

/// The items that the menu offers, from top to bottom. Where a file is
/// among the selected entries the last item moves files into directories;
/// where there are only directories, it opens one.
pub fn entry_menu(has_file: bool) -> (items: Vec<EntryMenuItem>)
    ensures
        items@ == menu_for(has_file),
{
    let mut items: Vec<EntryMenuItem> = Vec::new();
    items.push(EntryMenuItem::Label);
    items.push(EntryMenuItem::DeleteEntry);
    items.push(EntryMenuItem::RenameEntry);
    items.push(EntryMenuItem::Grade);
    if has_file {
        items.push(EntryMenuItem::MoveToDir);
    } else {
        items.push(EntryMenuItem::OpenDir);
    }
    items
}

/// The first of `items` that the menu shows as `text`; `None` where it
/// shows none of them so.
pub fn item_named(items: &Vec<EntryMenuItem>, text: &str) -> (found: Option<EntryMenuItem>)
    ensures
        match found {
            Some(item) => exists|k: int|
                0 <= k < items@.len() && items@[k] == item && text_of(item) == text@ && forall|
                    j: int,
                | 0 <= j < k ==> text_of(#[trigger] items@[j]) != text@,
            None => forall|j: int| 0 <= j < items@.len() ==> text_of(#[trigger] items@[j]) != text@,
        },
{
    let wanted = text.to_owned();
    let n = items.len();
    let mut k: usize = 0;
    while k < n
        invariant
            k <= n,
            n == items@.len(),
            wanted@ == text@,
            forall|j: int| 0 <= j < k ==> text_of(#[trigger] items@[j]) != text@,
        decreases n - k,
    {
        let item = items[k];
        let shown = item_text(item).to_owned();
        if shown == wanted {
            return Some(item);
        }
        k += 1;
    }
    None
}

/// Whether an answer to a question with two buttons is the first of them:
/// the one that says yes.
pub fn confirmed(answer: i32) -> (yes: bool)
    ensures
        yes == (answer == 0),
{
    answer == 0
}

} // verus!
