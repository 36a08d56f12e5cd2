use bottom::canvas::scroll::{get_start_position, ScrollDirection};
use bottom::canvas::table::{table_window, TableWindow};

#[test]
fn moving_down_past_the_window_pulls_it_down() {
    let mut previous = 0;
    let start = get_start_position(5, &ScrollDirection::DOWN, &mut previous, 7);
    assert_eq!(start, 2);
    assert_eq!(previous, 2);
}

#[test]
fn moving_down_inside_the_window_leaves_it() {
    let mut previous = 2;
    let start = get_start_position(5, &ScrollDirection::DOWN, &mut previous, 6);
    assert_eq!(start, 2);
    assert_eq!(previous, 2);
}

#[test]
fn moving_down_before_a_full_page_shows_the_top() {
    let mut previous = -10;
    let start = get_start_position(5, &ScrollDirection::DOWN, &mut previous, 2);
    assert_eq!(start, 0);
    assert_eq!(previous, -10);
}

#[test]
fn moving_up_above_the_window_pulls_it_up() {
    let mut previous = 5;
    let start = get_start_position(5, &ScrollDirection::UP, &mut previous, 3);
    assert_eq!(start, 3);
    assert_eq!(previous, 3);
}

#[test]
fn moving_up_inside_the_window_leaves_it() {
    let mut previous = 5;
    let start = get_start_position(5, &ScrollDirection::UP, &mut previous, 7);
    assert_eq!(start, 5);
    assert_eq!(previous, 5);
}

#[test]
fn offsets_never_decrease_while_moving_down() {
    let num_rows = 5;
    let mut previous = 0;
    let mut last = 0;
    for selected in 0..40 {
        let start = get_start_position(num_rows, &ScrollDirection::DOWN, &mut previous, selected);
        assert!(start >= last);
        assert!(start <= selected);
        assert!(selected <= start + num_rows);
        last = start;
    }
    assert_eq!(last, 34);
}

#[test]
fn table_window_marks_the_selected_row() {
    let mut previous = 0;
    let window = table_window(20, 10, true, &ScrollDirection::DOWN, &mut previous, 7);
    assert_eq!(window, TableWindow { start: 2, selected_row: Some(5) });
    assert_eq!(previous, 2);
}

#[test]
fn table_window_marks_nothing_in_a_table_that_is_not_active() {
    let mut previous = 0;
    let window = table_window(20, 10, false, &ScrollDirection::DOWN, &mut previous, 7);
    assert_eq!(window, TableWindow { start: 2, selected_row: None });
}

#[test]
fn table_window_stays_inside_the_list() {
    let mut previous = 0;
    let window = table_window(3, 10, true, &ScrollDirection::DOWN, &mut previous, 9);
    assert_eq!(window, TableWindow { start: 3, selected_row: None });
    assert_eq!(previous, 4);

    let mut previous = -4;
    let window = table_window(3, 10, true, &ScrollDirection::UP, &mut previous, 1);
    assert_eq!(window, TableWindow { start: 0, selected_row: Some(1) });
    assert_eq!(previous, -4);
}

#[test]
fn table_too_low_for_rows_still_gives_a_window() {
    let mut previous = 0;
    let window = table_window(4, 3, true, &ScrollDirection::DOWN, &mut previous, 0);
    // Two rows fewer than none fit: the selection is past the window, which follows it.
    assert_eq!(previous, 2);
    assert_eq!(window, TableWindow { start: 2, selected_row: None });
}
