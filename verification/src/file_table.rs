//! Which rows of the file table are meant.
//!
//! The table keeps the index of the directory that it shows, and of the file
//! that is selected in it, as signed numbers, with a number below zero for
//! "none".

use vstd::prelude::*;

verus! {

/// The index that a stored number stands for: none for a number below zero.
pub fn row_index(stored: isize) -> (index: Option<usize>)
    ensures
        index == (if stored >= 0 {
            Some(stored as usize)
        } else {
            None::<usize>
        }),
{
    if stored >= 0 {
        Some(stored as usize)
    } else {
        None
    }
}

/// The number that is stored for a row: the row itself where the backend
/// knows it, and minus one where it does not. The row is cut to the width of
/// an `isize`.
pub fn stored_index(row: usize, known: bool) -> (stored: isize)
    ensures
        stored == (if known {
            row as isize
        } else {
            -1isize
        }),
{
    if known {
        #[verifier::truncate]
        (row as isize)
    } else {
        -1
    }
}

/// The row whose file is the selected one: the stored file index, where a
/// directory is shown, its files are known, and the index is the index of
/// one of them.
pub fn selected_row(file_count: Option<usize>, dir_index: Option<usize>, file_id: isize) -> (row:
    Option<usize>)
    ensures
        row == (match (file_count, dir_index) {
            (Some(count), Some(_)) if 0 <= file_id < count => Some(file_id as usize),
            _ => None::<usize>,
        }),
{
    match file_count {
        Some(count) => {
            if dir_index.is_none() || file_id < 0 {
                return None;
            }
            let row = file_id as usize;
            if row < count {
                Some(row)
            } else {
                None
            }
        },
        None => None,
    }
}

/// The rows that are marked, in rising order: `marks` holds for each row of
/// a table whether it is selected.
pub fn marked_rows(marks: &Vec<bool>) -> (rows: Vec<u32>)
    requires
        marks@.len() <= u32::MAX,
    ensures
        rows@ == Seq::new(marks@.len(), |i: int| i as u32).filter(|row: u32| marks@[row as int]),
{
    let ghost all = Seq::new(marks@.len(), |i: int| i as u32);
    let ghost marked = |row: u32| marks@[row as int];
    let n = marks.len();
    let mut rows: Vec<u32> = Vec::new();
    let mut i: usize = 0;
    while i < n
        invariant
            i <= n,
            n == marks@.len(),
            n <= u32::MAX,
            all == Seq::new(marks@.len(), |i: int| i as u32),
            marked == (|row: u32| marks@[row as int]),
            rows@ == all.take(i as int).filter(marked),
        decreases n - i,
    {
        proof {
            assert(all.take(i + 1) =~= all.take(i as int).push(i as u32));
            all.take(i as int).lemma_filter_push(i as u32, marked);
        }
        if marks[i] {
            rows.push(i as u32);
        }
        i += 1;
    }
    assert(all.take(n as int) =~= all);
    rows
}

/// Whether row `row` is among the rows of `selection`.
pub open spec fn picks(selection: Seq<u32>, row: int) -> bool {
    exists|k: int| 0 <= k < selection.len() && #[trigger] selection[k] == row
}

/// Whether row `row` is among the rows of `selection`.
pub fn is_selected(selection: &Vec<u32>, row: usize) -> (found: bool)
    ensures
        found == picks(selection@, row as int),
{
    let n = selection.len();
    let mut k: usize = 0;
    while k < n
        invariant
            k <= n,
            n == selection@.len(),
            forall|j: int| 0 <= j < k ==> #[trigger] selection@[j] != row,
        decreases n - k,
    {
        if selection[k] as usize == row {
            return true;
        }
        k += 1;
    }
    false
}

/// The rows of a table of `row_count` rows that are among the rows of
/// `selection`, in rising order.
pub fn selected_rows(row_count: usize, selection: &Vec<u32>) -> (rows: Vec<usize>)
    ensures
        forall|r: usize| #[trigger] rows@.contains(r) <==> r < row_count && picks(selection@, r as int),
        forall|a: int, b: int| 0 <= a < b < rows@.len() ==> rows@[a] < rows@[b],
{
    let mut rows: Vec<usize> = Vec::new();
    let mut row: usize = 0;
    while row < row_count
        invariant
            row <= row_count,
            forall|r: usize| #[trigger] rows@.contains(r) <==> r < row && picks(selection@, r as int),
            forall|a: int| 0 <= a < rows@.len() ==> #[trigger] rows@[a] < row,
            forall|a: int, b: int| 0 <= a < b < rows@.len() ==> rows@[a] < rows@[b],
        decreases row_count - row,
    {
        if is_selected(selection, row) {
            let ghost before = rows@;
            rows.push(row);
            proof {
                assert(rows@[before.len() as int] == row);
                assert forall|r: usize| #[trigger] rows@.contains(r) <==> r < row + 1 && picks(
                    selection@,
                    r as int,
                ) by {
                    if before.contains(r) {
                        let at = choose|at: int| 0 <= at < before.len() && before[at] == r;
                        assert(rows@[at] == r);
                    }
                }
            }
        }
        row += 1;
    }
    rows
}

} // verus!
