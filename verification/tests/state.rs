use std::cmp::Ordering;

use organizer_core::base_table::{in_order, Sort, SortOrder};
use organizer_core::counter::Counter;
use organizer_core::location_dialog::Location;
use organizer_core::model::message::Message;
use organizer_core::text::entered;

#[test]
fn a_counter_starts_at_zero() {
    let counter = Counter::new();

    assert_eq!(counter.count, 0);
}

#[test]
fn a_counter_hands_out_offsets_in_a_row() {
    let mut counter = Counter::new();

    assert_eq!(counter.get_next(10, 25), 10);
    assert_eq!(counter.count, 25);
    assert_eq!(counter.get_next(10, 100), 35);
    assert_eq!(counter.count, 125);
    assert_eq!(counter.get_next(0, 0), 125);
    assert_eq!(counter.count, 125);
}

#[test]
fn a_counter_cuts_its_offsets_to_32_bits() {
    let mut counter = Counter { count: 0x1_0000_0000 };

    assert_eq!(counter.get_next(7, 1), 7);
    assert_eq!(counter.count, 0x1_0000_0001);
}

#[test]
fn a_new_sort_holds_what_it_is_given() {
    let sort = Sort::new(2, SortOrder::Desc);

    assert_eq!(sort.column, 2);
    assert_eq!(sort.order, SortOrder::Desc);
}

#[test]
fn the_first_click_sorts_ascending() {
    assert_eq!(Sort::toggle(None, 1), Sort::new(1, SortOrder::Asc));
}

#[test]
fn a_click_on_the_sorted_column_turns_the_order_round() {
    let ascending = Sort::new(1, SortOrder::Asc);
    let descending = Sort::toggle(Some(ascending), 1);

    assert_eq!(descending, Sort::new(1, SortOrder::Desc));
    assert_eq!(Sort::toggle(Some(descending), 1), ascending);
}

#[test]
fn a_click_on_another_column_sorts_ascending() {
    assert_eq!(
        Sort::toggle(Some(Sort::new(1, SortOrder::Asc)), 2),
        Sort::new(2, SortOrder::Asc)
    );
    assert_eq!(
        Sort::toggle(Some(Sort::new(1, SortOrder::Desc)), 0),
        Sort::new(0, SortOrder::Asc)
    );
}

#[test]
fn the_first_selected_row_is_the_entry_shown() {
    assert!(matches!(
        Message::entry_changed(&vec![4, 2, 9]),
        Message::EntryChanged(Some(4))
    ));
    assert!(matches!(
        Message::entry_changed(&Vec::new()),
        Message::EntryChanged(None)
    ));
}

#[test]
fn a_new_location_cannot_be_added() {
    let location = Location::new();

    assert!(!location.valid());
    assert_eq!(location.values(), None);
}

#[test]
fn a_location_needs_a_name_and_a_path() {
    let mut location = Location::new();
    location.set_name("Films");

    assert!(!location.valid());
    assert_eq!(location.values(), None);

    let mut location = Location::new();
    location.set_path("/srv/films");

    assert!(!location.valid());
    assert_eq!(location.values(), None);
}

#[test]
fn a_location_with_name_and_path_can_be_added() {
    let mut location = Location::new();
    location.set_name(" Films ");
    location.set_path("/srv/films");

    assert!(location.valid());
    assert_eq!(
        location.values(),
        Some((" Films ".to_string(), "/srv/films".to_string()))
    );
}

#[test]
fn white_space_is_neither_a_name_nor_a_path() {
    let mut location = Location::new();
    location.set_name("  \t ");
    location.set_path("/srv/films");

    assert!(!location.valid());
    assert_eq!(location.values(), None);

    location.set_name("Films");
    location.set_path("\n");

    assert!(!location.valid());

    location.set_path("");

    assert!(!location.valid());
}

#[test]
fn what_is_typed_last_counts() {
    let mut location = Location::new();
    location.set_name("Films");
    location.set_path("/srv/films");
    location.set_name("Series");

    assert_eq!(
        location.values(),
        Some(("Series".to_string(), "/srv/films".to_string()))
    );
}

#[test]
fn a_descending_table_turns_the_comparison_round() {
    assert_eq!(in_order(Ordering::Less, SortOrder::Asc), Ordering::Less);
    assert_eq!(in_order(Ordering::Equal, SortOrder::Asc), Ordering::Equal);
    assert_eq!(in_order(Ordering::Greater, SortOrder::Asc), Ordering::Greater);
    assert_eq!(in_order(Ordering::Less, SortOrder::Desc), Ordering::Greater);
    assert_eq!(in_order(Ordering::Equal, SortOrder::Desc), Ordering::Equal);
    assert_eq!(in_order(Ordering::Greater, SortOrder::Desc), Ordering::Less);
}

#[test]
fn an_empty_field_holds_no_name() {
    assert_eq!(entered("Films".to_string()), Some("Films".to_string()));
    assert_eq!(entered(" ".to_string()), Some(" ".to_string()));
    assert_eq!(entered(String::new()), None);
}
