//! The rule of the dialog that edits a label filter.

use vstd::prelude::*;
use crate::text::{has_text, trimmed};

verus! {

/// Whether a label filter is complete: it has a name and a pattern that
/// are more than white space, and a label has been chosen for it. A filter
/// that has no label yet holds an identifier that is not above zero.
pub open spec fn is_complete(name: Seq<char>, filter: Seq<char>, label_id: i32) -> bool {
    trimmed(name).len() > 0 && trimmed(filter).len() > 0 && label_id > 0
}

/// Whether a label filter with this name, pattern and label can be saved.
pub fn can_save(name: &str, filter: &str, label_id: i32) -> (ok: bool)
    ensures
        ok == is_complete(name@, filter@, label_id),
{
    let name_done = has_text(name);
    let filter_done = has_text(filter);
    let label_done = label_id > 0;
    name_done && filter_done && label_done
}

} // verus!
