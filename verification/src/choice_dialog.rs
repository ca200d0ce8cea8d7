//! The answer of a dialog that lets the user choose one of several buttons.

use vstd::prelude::*;

verus! {

/// The offset of the first button from the left edge of the dialog.
pub const BUTTON_MARGIN: i32 = 10;

/// The distance from the left edge of one button to that of the next.
pub const BUTTON_STEP: i32 = 70;

/// The offset of button `index` from the left edge of the dialog: the
/// buttons stand in a row, [`BUTTON_STEP`] apart.
pub fn button_offset(index: usize) -> (x: i32)
    requires
        BUTTON_MARGIN + BUTTON_STEP * index <= i32::MAX,
    ensures
        x == BUTTON_MARGIN + BUTTON_STEP * index,
{
    BUTTON_MARGIN + BUTTON_STEP * (index as i32)
}

/// The answer that stands for a dialog that was closed without a choice.
pub const NO_CHOICE: i32 = -1;

/// The answer of the dialog as a number: the index of the button that was
/// chosen, cut to 32 bits, and [`NO_CHOICE`] where none was.
pub fn result_code(choice: Option<u32>) -> (code: i32)
    ensures
        code == (match choice {
            Some(index) => index as i32,
            None => NO_CHOICE,
        }),
{
    match choice {
        Some(index) => {
            #[verifier::truncate]
            (index as i32)
        },
        None => NO_CHOICE,
    }
}

} // verus!
