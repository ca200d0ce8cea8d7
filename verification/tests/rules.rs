use std::collections::HashSet;

use organizer_core::choice_dialog::{button_offset, result_code, NO_CHOICE};
use organizer_core::entry_context_menu::{
    confirmed, entry_menu, item_named, item_text, EntryMenuItem,
};
use organizer_core::file_table::{
    is_selected, marked_rows, row_index, selected_row, selected_rows, stored_index,
};
use organizer_core::label::{
    label_click, labels_to_remove, selection_mark, state_text, toggle_label, LabelChange,
    LabelState, LEFT_BUTTON, RIGHT_BUTTON,
};
use organizer_core::label_filter::can_save;
use organizer_core::table_utils::{resize_column, ColHeader, ColSize};
use organizer_core::text::has_text;

#[test]
fn the_left_button_moves_a_label_toward_included() {
    assert_eq!(
        label_click(LabelState::Unset, LEFT_BUTTON),
        Some(LabelChange::Include)
    );
    assert_eq!(
        label_click(LabelState::Include, LEFT_BUTTON),
        Some(LabelChange::Keep)
    );
    assert_eq!(
        label_click(LabelState::Exclude, LEFT_BUTTON),
        Some(LabelChange::Remove)
    );
}

#[test]
fn the_right_button_moves_a_label_toward_excluded() {
    assert_eq!(
        label_click(LabelState::Unset, RIGHT_BUTTON),
        Some(LabelChange::Exclude)
    );
    assert_eq!(
        label_click(LabelState::Include, RIGHT_BUTTON),
        Some(LabelChange::Remove)
    );
    assert_eq!(
        label_click(LabelState::Exclude, RIGHT_BUTTON),
        Some(LabelChange::Keep)
    );
}

#[test]
fn other_buttons_are_not_for_the_label_list() {
    for button in [-1, 0, 2, 4, 100] {
        assert_eq!(label_click(LabelState::Unset, button), None);
        assert_eq!(label_click(LabelState::Include, button), None);
        assert_eq!(label_click(LabelState::Exclude, button), None);
    }
}

#[test]
fn each_state_has_its_letter() {
    assert_eq!(state_text(LabelState::Unset), "U");
    assert_eq!(state_text(LabelState::Include), "I");
    assert_eq!(state_text(LabelState::Exclude), "E");
}

#[test]
fn a_selected_label_is_marked_with_a_cross() {
    let selected: HashSet<u32> = [3, 8].into_iter().collect();

    assert_eq!(selection_mark(&selected, 3), "X");
    assert_eq!(selection_mark(&selected, 4), "");
}

#[test]
fn toggling_selects_and_deselects() {
    let mut selected: HashSet<u32> = HashSet::new();

    toggle_label(&mut selected, 5);
    assert_eq!(selected, [5].into_iter().collect());

    toggle_label(&mut selected, 9);
    assert_eq!(selected, [5, 9].into_iter().collect());

    toggle_label(&mut selected, 5);
    assert_eq!(selected, [9].into_iter().collect());

    toggle_label(&mut selected, 9);
    assert!(selected.is_empty());
}

#[test]
fn labels_that_are_not_selected_are_removed() {
    let selected: HashSet<u32> = [2, 4, 40].into_iter().collect();

    assert_eq!(
        labels_to_remove(&vec![5, 4, 3, 2, 1], &selected),
        vec![5, 3, 1]
    );
    assert_eq!(labels_to_remove(&vec![2, 4], &selected), Vec::<u32>::new());
    assert_eq!(labels_to_remove(&Vec::new(), &selected), Vec::<u32>::new());
    assert_eq!(labels_to_remove(&vec![7, 8], &HashSet::new()), vec![7, 8]);
}

#[test]
fn a_filter_needs_a_name_a_pattern_and_a_label() {
    assert!(can_save("films", ".*\\.mkv", 3));
    assert!(can_save(" films ", " x ", 1));
    assert!(!can_save("", ".*\\.mkv", 3));
    assert!(!can_save("  ", ".*\\.mkv", 3));
    assert!(!can_save("films", "", 3));
    assert!(!can_save("films", "\t\n", 3));
    assert!(!can_save("films", ".*\\.mkv", 0));
    assert!(!can_save("films", ".*\\.mkv", -1));
}

#[test]
fn white_space_is_no_text() {
    assert!(has_text("a"));
    assert!(has_text("  a  "));
    assert!(!has_text(""));
    assert!(!has_text(" \t\r\n"));
}

#[test]
fn the_menu_ends_with_what_fits_the_entries() {
    assert_eq!(
        entry_menu(true),
        vec![
            EntryMenuItem::Label,
            EntryMenuItem::DeleteEntry,
            EntryMenuItem::RenameEntry,
            EntryMenuItem::Grade,
            EntryMenuItem::MoveToDir,
        ]
    );
    assert_eq!(
        entry_menu(false),
        vec![
            EntryMenuItem::Label,
            EntryMenuItem::DeleteEntry,
            EntryMenuItem::RenameEntry,
            EntryMenuItem::Grade,
            EntryMenuItem::OpenDir,
        ]
    );
}

#[test]
fn each_item_has_its_text() {
    assert_eq!(item_text(EntryMenuItem::Label), "Label >");
    assert_eq!(item_text(EntryMenuItem::DeleteEntry), "Delete Entry");
    assert_eq!(item_text(EntryMenuItem::RenameEntry), "Rename Entry");
    assert_eq!(item_text(EntryMenuItem::Grade), "Grade");
    assert_eq!(item_text(EntryMenuItem::MoveToDir), "Move to Dir");
    assert_eq!(item_text(EntryMenuItem::OpenDir), "Open dir");
}

#[test]
fn an_item_is_found_by_its_text() {
    let with_file = entry_menu(true);
    let without_file = entry_menu(false);

    assert_eq!(item_named(&with_file, "Label >"), Some(EntryMenuItem::Label));
    assert_eq!(item_named(&with_file, "Grade"), Some(EntryMenuItem::Grade));
    assert_eq!(
        item_named(&with_file, "Move to Dir"),
        Some(EntryMenuItem::MoveToDir)
    );
    assert_eq!(item_named(&with_file, "Open dir"), None);
    assert_eq!(
        item_named(&without_file, "Open dir"),
        Some(EntryMenuItem::OpenDir)
    );
    assert_eq!(item_named(&without_file, "Move to Dir"), None);
    assert_eq!(item_named(&without_file, "label >"), None);
    assert_eq!(item_named(&without_file, ""), None);
    assert_eq!(item_named(&Vec::new(), "Grade"), None);
}

#[test]
fn only_the_first_button_confirms() {
    assert!(confirmed(0));
    assert!(!confirmed(1));
    assert!(!confirmed(-1));
}

#[test]
fn a_choice_is_answered_by_its_index() {
    assert_eq!(result_code(Some(0)), 0);
    assert_eq!(result_code(Some(3)), 3);
    assert_eq!(result_code(None), -1);
    assert_eq!(NO_CHOICE, -1);
    assert_eq!(result_code(Some(u32::MAX)), -1);
}

#[test]
fn a_number_below_zero_is_no_row() {
    assert_eq!(row_index(0), Some(0));
    assert_eq!(row_index(17), Some(17));
    assert_eq!(row_index(-1), None);
    assert_eq!(row_index(isize::MIN), None);
}

#[test]
fn the_selected_file_has_to_be_one_of_the_files_shown() {
    assert_eq!(selected_row(Some(3), Some(0), 2), Some(2));
    assert_eq!(selected_row(Some(3), Some(7), 0), Some(0));
    assert_eq!(selected_row(Some(3), Some(0), 3), None);
    assert_eq!(selected_row(Some(3), Some(0), -1), None);
    assert_eq!(selected_row(Some(3), None, 1), None);
    assert_eq!(selected_row(None, Some(0), 1), None);
    assert_eq!(selected_row(Some(0), Some(0), 0), None);
}

#[test]
fn selected_rows_are_those_that_the_selection_names() {
    assert!(is_selected(&vec![4, 1], 1));
    assert!(!is_selected(&vec![4, 1], 2));
    assert!(!is_selected(&Vec::new(), 0));

    assert_eq!(selected_rows(5, &vec![3, 0, 3]), vec![0, 3]);
    assert_eq!(selected_rows(3, &vec![0, 1, 2, 3, 4]), vec![0, 1, 2]);
    assert_eq!(selected_rows(0, &vec![0]), Vec::<usize>::new());
    assert_eq!(selected_rows(4, &Vec::new()), Vec::<usize>::new());
}

#[test]
fn a_table_on_screen_leaves_room_for_its_scroll_bar() {
    let headers = vec![
        ColHeader::new("Name", ColSize::Ratio(70)),
        ColHeader::new("Path", ColSize::Greedy),
        ColHeader::new("Size", ColSize::Fixed(80)),
        ColHeader::new("Grade", ColSize::Fixed(40)),
    ];

    // 520 less 20 for the scroll bar less the fixed 120 leaves 380.
    assert_eq!(
        resize_column(520, &headers),
        vec![(0, 266), (1, 114), (2, 80), (3, 40)]
    );
    // In a widget that is too narrow the elastic columns are 50 wide.
    assert_eq!(
        resize_column(100, &headers),
        vec![(0, 50), (1, 50), (2, 80), (3, 40)]
    );
}

#[test]
fn buttons_stand_in_a_row() {
    assert_eq!(button_offset(0), 10);
    assert_eq!(button_offset(1), 80);
    assert_eq!(button_offset(2), 150);
}

#[test]
fn a_row_that_is_not_known_is_stored_as_none() {
    assert_eq!(stored_index(0, true), 0);
    assert_eq!(stored_index(12, true), 12);
    assert_eq!(stored_index(12, false), -1);
    assert_eq!(row_index(stored_index(12, true)), Some(12));
    assert_eq!(row_index(stored_index(12, false)), None);
}

#[test]
fn marked_rows_are_listed_in_rising_order() {
    assert_eq!(
        marked_rows(&vec![false, true, true, false, true]),
        vec![1, 2, 4]
    );
    assert_eq!(marked_rows(&vec![true]), vec![0]);
    assert_eq!(marked_rows(&vec![false, false]), Vec::<u32>::new());
    assert_eq!(marked_rows(&Vec::new()), Vec::<u32>::new());
}

#[test]
fn no_label_is_removed_twice() {
    let selected: HashSet<u32> = [2].into_iter().collect();
    let dropped = labels_to_remove(&vec![9, 2, 7, 1, 8], &selected);

    assert_eq!(dropped, vec![9, 7, 1, 8]);
    let distinct: HashSet<u32> = dropped.iter().copied().collect();
    assert_eq!(distinct.len(), dropped.len());
}

#[test]
fn a_label_that_is_listed_twice_is_kept_twice() {
    let selected: HashSet<u32> = [2].into_iter().collect();

    assert_eq!(labels_to_remove(&vec![3, 2, 3], &selected), vec![3, 3]);
}
