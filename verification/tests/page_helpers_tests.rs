use issue_tracker::ui::pages::page_helpers::get_column_string;

#[test]
fn get_column_width_0_is_empty_string() {
    assert_eq!(get_column_string("thisisatest", 0), "");
}

#[test]
fn get_column_width_1_is_single_dot_string() {
    assert_eq!(get_column_string("thisisatest", 1), ".");
}

#[test]
fn get_column_width_2_is_double_dot_string() {
    assert_eq!(get_column_string("thisisatest", 2), "..");
}

#[test]
fn get_column_width_3_is_triple_dot_string() {
    assert_eq!(get_column_string("thisisatest", 3), "...");
}

#[test]
fn get_column_width_4_is_first_char_with_triple_dot_string() {
    assert_eq!(get_column_string("thisisatest", 4), "t...");
}

#[test]
fn get_column_width_6_pads_empty_string_to_six_white_spaces() {
    assert_eq!(get_column_string("", 6), "      ");
}

#[test]
fn get_column_width_6_pads_smaller_string_with_white_spaces() {
    assert_eq!(get_column_string("this", 6), "this  ");
}

#[test]
fn get_column_string_returns_same_string_if_length_and_width_are_equal() {
    assert_eq!(get_column_string("thisisatest", 11), "thisisatest");
}

#[test]
fn get_column_string_6_truncates_longer_string_with_ellipse() {
    assert_eq!(get_column_string("thisisatest", 6), "thi...");
}

#[test]
fn get_column_string_pads_by_characters_where_bytes_are_fewer_than_the_width() {
    assert_eq!(get_column_string("h\u{e9}", 5), "h\u{e9}   ");
    assert_eq!(get_column_string("\u{e9}\u{e9}", 5), "\u{e9}\u{e9}   ");
}

#[test]
fn get_column_string_goes_by_bytes_to_choose_the_case() {
    assert_eq!(get_column_string("\u{e9}\u{e9}", 4), "\u{e9}\u{e9}");
    assert_eq!(get_column_string("\u{e9}\u{e9}\u{e9}", 6), "\u{e9}\u{e9}\u{e9}");
    assert_eq!(get_column_string("\u{e9}\u{e9}\u{e9}", 5), "\u{e9}\u{e9}...");
    assert_eq!(get_column_string("\u{e9}\u{e9}\u{e9}", 4), "\u{e9}...");
    assert_eq!(get_column_string("\u{e9}\u{e9}", 3), "...");
}

#[test]
fn get_column_string_of_an_empty_text_is_blank_at_any_width() {
    assert_eq!(get_column_string("", 0), "");
    assert_eq!(get_column_string("", 2), "  ");
}
