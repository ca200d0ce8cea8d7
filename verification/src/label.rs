//! The rules of the label lists: what a click on a label does to the filter,
//! and which labels are kept for an entry.

use vstd::prelude::*;
use std::collections::HashSet;

verus! {

/// The part that a label plays in the filter of the entry table.
#[derive(Debug, Clone, Copy, PartialEq, Eq, Structural)]
pub enum LabelState {
    /// The label plays no part.
    Unset,
    /// Only entries with the label are shown.
    Include,
    /// Entries with the label are not shown.
    Exclude,
}

/// What a click asks to be done with a label in the filter.
#[derive(Debug, Clone, Copy, PartialEq, Eq, Structural)]
pub enum LabelChange {
    /// The label stays as it is.
    Keep,
    /// The label is to be included.
    Include,
    /// The label is to be excluded.
    Exclude,
    /// The label is to be taken out of the filter.
    Remove,
}

/// The number of the left mouse button.
pub const LEFT_BUTTON: i32 = 1;

/// The number of the right mouse button.
pub const RIGHT_BUTTON: i32 = 3;

/// What a click of a mouse button on a label asks for.
pub open spec fn click_asks(state: LabelState, button: i32) -> Option<LabelChange> {
    if button == LEFT_BUTTON {
        Some(
            match state {
                LabelState::Unset => LabelChange::Include,
                LabelState::Include => LabelChange::Keep,
                LabelState::Exclude => LabelChange::Remove,
            },
        )
    } else if button == RIGHT_BUTTON {
        Some(
            match state {
                LabelState::Unset => LabelChange::Exclude,
                LabelState::Include => LabelChange::Remove,
                LabelState::Exclude => LabelChange::Keep,
            },
        )
    } else {
        None
    }
}

/// What a click of the mouse button `button` on a label in state `state`
/// asks for.
///
/// The left button moves a label toward being included, the right button
/// toward being excluded: an unset label is set, a label that is set the
/// other way is taken out of the filter, and one that is set this way
/// already stays. Any other button is not for the label list: the result is
/// `None`.
pub fn label_click(state: LabelState, button: i32) -> (change: Option<LabelChange>)
    ensures
        change == click_asks(state, button),
{
    if button == LEFT_BUTTON {
        Some(
            match state {
                LabelState::Unset => LabelChange::Include,
                LabelState::Include => LabelChange::Keep,
                LabelState::Exclude => LabelChange::Remove,
            },
        )
    } else if button == RIGHT_BUTTON {
        Some(
            match state {
                LabelState::Unset => LabelChange::Exclude,
                LabelState::Include => LabelChange::Remove,
                LabelState::Exclude => LabelChange::Keep,
            },
        )
    } else {
        None
    }
}

/// The letter that stands for a state in the label list.
pub fn state_text(state: LabelState) -> (text: &'static str)
    ensures
        text@ == (match state {
            LabelState::Unset => "U"@,
            LabelState::Include => "I"@,
            LabelState::Exclude => "E"@,
        }),
{
    match state {
        LabelState::Unset => "U",
        LabelState::Include => "I",
        LabelState::Exclude => "E",
    }
}

/// The mark that a label has in the list of an entry's labels: a cross where
/// the label is selected.
pub fn selection_mark(selected: &HashSet<u32>, label_id: u32) -> (text: &'static str)
    ensures
        text@ == (if selected@.contains(label_id) {
            "X"@
        } else {
            ""@
        }),
{
    broadcast use vstd::std_specs::hash::group_hash_axioms;

    if selected.contains(&label_id) {
        "X"
    } else {
        ""
    }
}

/// Turns the selection of a label round: a label that is selected is
/// deselected, and one that is not is selected.
pub fn toggle_label(selected: &mut HashSet<u32>, label_id: u32)
    ensures
        final(selected)@ == (if old(selected)@.contains(label_id) {
            old(selected)@.remove(label_id)
        } else {
            old(selected)@.insert(label_id)
        }),
{
    broadcast use vstd::std_specs::hash::group_hash_axioms;

    if !selected.contains(&label_id) {
        selected.insert(label_id);
    } else {
        selected.remove(&label_id);
    }
}

/// The labels that an entry is to lose when its labels are saved: those of
/// `labels` that are not selected, in the order of `labels`. Where no label
/// stands twice in `labels`, none stands twice among those to lose.
pub fn labels_to_remove(labels: &Vec<u32>, selected: &HashSet<u32>) -> (dropped: Vec<u32>)
    ensures
        dropped@ == labels@.filter(|id: u32| !selected@.contains(id)),
        labels@.no_duplicates() ==> dropped@.no_duplicates(),
{
    broadcast use vstd::std_specs::hash::group_hash_axioms;

    let ghost unselected = |id: u32| !selected@.contains(id);
    let n = labels.len();
    let mut dropped: Vec<u32> = Vec::new();
    let mut i: usize = 0;
    while i < n
        invariant
            i <= n,
            n == labels@.len(),
            unselected == (|id: u32| !selected@.contains(id)),
            dropped@ == labels@.take(i as int).filter(unselected),
            forall|j: int|
                0 <= j < dropped@.len() ==> exists|k: int|
                    0 <= k < i && labels@[k] == #[trigger] dropped@[j],
            labels@.no_duplicates() ==> dropped@.no_duplicates(),
        decreases n - i,
    {
        let id = labels[i];
        proof {
            assert(labels@.take(i + 1) =~= labels@.take(i as int).push(id));
            labels@.take(i as int).lemma_filter_push(id, unselected);
        }
        if !selected.contains(&id) {
            dropped.push(id);
        }
        i += 1;
    }
    assert(labels@.take(n as int) =~= labels@);
    dropped
}

} // verus!
