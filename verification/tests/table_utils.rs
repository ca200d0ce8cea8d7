use organizer_core::table_utils::{
    get_file_color, has_video_ending, pretty_size, resize_column_internal, ColHeader, ColSize,
    FileColor, PrettySize, VIDEO_FORMATS,
};

#[test]
fn test_fixed_simple() {
    let headers = vec![
        ColHeader::new("Path", ColSize::Fixed(50)),
        ColHeader::new("Size", ColSize::Fixed(50)),
    ];

    let sizes = resize_column_internal(100, 20, &headers);

    assert_eq!(sizes, vec![(0, 50), (1, 50)]);
}

#[test]
fn test_fixed_and_greedy_simple() {
    let headers = vec![
        ColHeader::new("Path", ColSize::Fixed(50)),
        ColHeader::new("Size", ColSize::Greedy),
        ColHeader::new("Size", ColSize::Fixed(50)),
    ];

    let sizes = resize_column_internal(120, 20, &headers);

    assert_eq!(sizes, vec![(0, 50), (1, 20), (2, 50)]);
}

#[test]
fn test_ratio_simple() {
    let headers = vec![
        ColHeader::new("Path", ColSize::Ratio(50)),
        ColHeader::new("Size", ColSize::Ratio(50)),
    ];

    let sizes = resize_column_internal(100, 20, &headers);

    assert_eq!(sizes, vec![(0, 50), (1, 50)]);
}

#[test]
fn test_greedy_single() {
    let headers = vec![
        ColHeader::new("Path", ColSize::Ratio(50)),
        ColHeader::new("Size", ColSize::Ratio(50)),
    ];

    let sizes = resize_column_internal(100, 20, &headers);

    assert_eq!(sizes, vec![(0, 50), (1, 50)]);
}

#[test]
fn test_greedy_two() {
    let headers = vec![
        ColHeader::new("Path", ColSize::Greedy),
        ColHeader::new("Size", ColSize::Greedy),
    ];

    let sizes = resize_column_internal(100, 20, &headers);

    assert_eq!(sizes, vec![(0, 50), (1, 50)]);
}

#[test]
fn test_fixed_and_ratio() {
    let headers = vec![
        ColHeader::new("Path", ColSize::Fixed(50)),
        ColHeader::new("Size", ColSize::Ratio(50)),
    ];

    let sizes = resize_column_internal(100, 20, &headers);

    assert_eq!(sizes, vec![(0, 50), (1, 25)]);
}

#[test]
fn test_fixed_and_ratio_and_greedy() {
    let headers = vec![
        ColHeader::new("Path", ColSize::Fixed(50)),
        ColHeader::new("Size", ColSize::Greedy),
        ColHeader::new("Size", ColSize::Ratio(50)),
    ];

    let sizes = resize_column_internal(100, 20, &headers);

    assert_eq!(sizes, vec![(0, 50), (1, 25), (2, 25)]);
}

#[test]
fn test_fixed_and_ratio_and_greedy_width_too_small() {
    let headers = vec![
        ColHeader::new("Path", ColSize::Fixed(50)),
        ColHeader::new("Size", ColSize::Greedy),
        ColHeader::new("Size", ColSize::Ratio(200)),
    ];

    let sizes = resize_column_internal(100, 20, &headers);

    assert_eq!(sizes, vec![(0, 50), (1, 20), (2, 100)]);
}

#[test]
fn a_header_keeps_its_label_and_rule() {
    let header = ColHeader::new("Path", ColSize::Ratio(70));

    assert_eq!(header.label, "Path");
    assert_eq!(header.width, ColSize::Ratio(70));
}

#[test]
fn no_columns_give_no_widths() {
    let headers: Vec<ColHeader> = Vec::new();

    assert!(resize_column_internal(100, 20, &headers).is_empty());
}

#[test]
fn the_entry_table_at_its_first_width() {
    // 500 less the fixed 120 leaves 380; 70 hundredths of that are 266, and
    // the 114 that are left go to the one greedy column.
    let headers = vec![
        ColHeader::new("Name", ColSize::Ratio(70)),
        ColHeader::new("Path", ColSize::Greedy),
        ColHeader::new("Size", ColSize::Fixed(80)),
        ColHeader::new("Grade", ColSize::Fixed(40)),
    ];

    let sizes = resize_column_internal(500, 50, &headers);

    assert_eq!(sizes, vec![(0, 266), (1, 114), (2, 80), (3, 40)]);
}

#[test]
fn every_ratio_is_taken_of_the_same_width() {
    // Both columns take their part of the 90 that the fixed column leaves:
    // the second is not served from what the first has left over.
    let headers = vec![
        ColHeader::new("A", ColSize::Ratio(50)),
        ColHeader::new("B", ColSize::Fixed(10)),
        ColHeader::new("C", ColSize::Ratio(30)),
    ];

    let sizes = resize_column_internal(100, 5, &headers);

    assert_eq!(sizes, vec![(0, 45), (1, 10), (2, 27)]);
}

#[test]
fn parts_are_rounded_down() {
    let headers = vec![
        ColHeader::new("A", ColSize::Ratio(33)),
        ColHeader::new("B", ColSize::Greedy),
        ColHeader::new("C", ColSize::Greedy),
        ColHeader::new("D", ColSize::Greedy),
    ];

    // 33 hundredths of 101 are 33.33; the 68 that are left make 22.67 each.
    let sizes = resize_column_internal(101, 1, &headers);

    assert_eq!(sizes, vec![(0, 33), (1, 22), (2, 22), (3, 22)]);
}

#[test]
fn elastic_columns_get_the_minimum_in_a_table_that_is_too_narrow() {
    let headers = vec![
        ColHeader::new("A", ColSize::Fixed(80)),
        ColHeader::new("B", ColSize::Ratio(70)),
        ColHeader::new("C", ColSize::Greedy),
    ];

    let sizes = resize_column_internal(-20, 50, &headers);

    assert_eq!(sizes, vec![(0, 80), (1, 50), (2, 50)]);
}

#[test]
fn parts_of_a_width_below_zero_are_rounded_toward_zero() {
    let headers = vec![
        ColHeader::new("A", ColSize::Ratio(50)),
        ColHeader::new("B", ColSize::Greedy),
        ColHeader::new("C", ColSize::Greedy),
    ];

    // Half of -5 is -2.5, which is taken as -2; that leaves -3, of which
    // each greedy column gets -1.5, taken as -1.
    let sizes = resize_column_internal(-5, -100, &headers);

    assert_eq!(sizes, vec![(0, -2), (1, -1), (2, -1)]);
}

#[test]
fn a_part_that_is_too_large_is_cut_to_the_largest_width() {
    let headers = vec![ColHeader::new("A", ColSize::Ratio(u32::MAX))];

    let sizes = resize_column_internal(i32::MAX, 0, &headers);

    assert_eq!(sizes, vec![(0, i32::MAX)]);
}

#[test]
fn video_files_are_blue() {
    assert_eq!(get_file_color("holiday.mkv"), FileColor::Blue);
    assert_eq!(get_file_color("a.b.webm"), FileColor::Blue);
    assert_eq!(get_file_color(".m2v"), FileColor::Blue);
    assert_eq!(get_file_color("clip.qt"), FileColor::Blue);
}

#[test]
fn video_files_are_known_in_upper_case_too() {
    assert_eq!(get_file_color("HOLIDAY.MKV"), FileColor::Blue);
    assert_eq!(get_file_color("Clip.Mp4"), FileColor::Blue);
}

#[test]
fn other_files_are_gray() {
    assert_eq!(get_file_color("notes.txt"), FileColor::Gray0);
    assert_eq!(get_file_color("mkv"), FileColor::Gray0);
    assert_eq!(get_file_color("film.mkv.txt"), FileColor::Gray0);
    assert_eq!(get_file_color(""), FileColor::Gray0);
    assert_eq!(get_file_color("holiday.mk"), FileColor::Gray0);
}

#[test]
fn sizes_are_shown_in_the_largest_unit_they_exceed() {
    assert_eq!(pretty_size(0), PrettySize::Bytes(0));
    assert_eq!(pretty_size(999), PrettySize::Bytes(999));
    assert_eq!(pretty_size(1000), PrettySize::Bytes(1000));
    assert_eq!(pretty_size(1001), PrettySize::Kilo(1));
    assert_eq!(pretty_size(1_000_000), PrettySize::Kilo(1000));
    assert_eq!(pretty_size(1_000_001), PrettySize::Mega(1));
    assert_eq!(pretty_size(2_999_999), PrettySize::Mega(2));
    assert_eq!(pretty_size(1_000_000_000), PrettySize::Mega(1000));
    assert_eq!(pretty_size(1_000_000_001), PrettySize::Giga(1_000_000_001));
    assert_eq!(pretty_size(2_500_000_000), PrettySize::Giga(2_500_000_000));
}

#[test]
fn sizes_below_zero_are_shown_in_bytes() {
    assert_eq!(pretty_size(-5_000_000), PrettySize::Bytes(-5_000_000));
}

#[test]
fn every_video_ending_is_known() {
    assert_eq!(VIDEO_FORMATS.len(), 23);
    for ending in VIDEO_FORMATS {
        assert!(has_video_ending(ending));
        assert!(has_video_ending(&format!("film{}", ending)));
        assert_eq!(get_file_color(&format!("Film{}", ending)), FileColor::Blue);
    }
}

#[test]
fn an_ending_is_compared_as_it_stands() {
    assert!(has_video_ending("movie.mkv"));
    assert!(has_video_ending("a.tar.mpeg"));
    assert!(!has_video_ending("mkv"));
    assert!(!has_video_ending("movie.mkv "));
    assert!(!has_video_ending("movie.mk"));
    assert!(!has_video_ending(""));
    assert!(!has_video_ending("MOVIE.MKV"));
    assert!(!has_video_ending("movie.Mkv"));
}
