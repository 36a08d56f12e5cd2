use bottom::canvas::table::{get_header_thresholds, table_widths};
use bottom::canvas::widths::get_variable_intrinsic_widths;

#[test]
fn two_equal_columns_share_twenty() {
    let (widths, rendered_count) = get_variable_intrinsic_widths(20, &[5000, 5000], &[5, 5]);
    assert_eq!(widths, vec![10, 9]);
    assert_eq!(rendered_count, 2);
}

#[test]
fn column_that_does_not_fit_is_dropped_and_its_room_shared_out() {
    let (widths, rendered_count) = get_variable_intrinsic_widths(8, &[5000, 5000], &[5, 5]);
    assert_eq!(widths, vec![7, 0]);
    assert_eq!(rendered_count, 1);
}

#[test]
fn leftover_is_spread_evenly() {
    let (widths, rendered_count) =
        get_variable_intrinsic_widths(23, &[2000, 2000, 2000], &[1, 1, 1]);
    assert_eq!(widths, vec![7, 7, 7]);
    assert_eq!(rendered_count, 3);
}

#[test]
fn remainder_of_leftover_goes_to_the_first_columns() {
    let (widths, rendered_count) =
        get_variable_intrinsic_widths(24, &[2000, 2000, 2000], &[1, 1, 1]);
    assert_eq!(widths, vec![8, 7, 7]);
    assert_eq!(rendered_count, 3);
}

#[test]
fn nothing_is_drawn_where_the_first_column_does_not_fit() {
    let (widths, rendered_count) = get_variable_intrinsic_widths(3, &[5000], &[5]);
    assert_eq!(widths, vec![0]);
    assert_eq!(rendered_count, 0);
}

#[test]
fn no_columns_give_no_widths() {
    let (widths, rendered_count) = get_variable_intrinsic_widths(10, &[], &[]);
    assert!(widths.is_empty());
    assert_eq!(rendered_count, 0);
}

#[test]
fn width_smaller_than_the_gaps_draws_nothing() {
    let (widths, rendered_count) = get_variable_intrinsic_widths(0, &[3000, 3000, 3000], &[0, 0, 0]);
    assert_eq!(widths, vec![0, 0, 0]);
    assert_eq!(rendered_count, 0);
}

#[test]
fn columns_after_the_first_dropped_one_are_dropped_too() {
    // The second column cannot have its ten units; the third would fit but is not looked at.
    let (widths, rendered_count) =
        get_variable_intrinsic_widths(12, &[5000, 100, 100], &[5, 10, 1]);
    assert_eq!(rendered_count, 1);
    assert_eq!(widths, vec![10, 0, 0]);
}

#[test]
fn widths_sum_to_the_total_less_the_gaps() {
    for total in 0u16..120 {
        let ratios = [2000u32, 1500, 1300, 1300, 1300, 1300, 1300];
        let thresholds = [5usize, 5, 5, 5, 5, 5, 5];
        let (widths, rendered_count) = get_variable_intrinsic_widths(total, &ratios, &thresholds);
        let sum: u32 = widths.iter().map(|w| u32::from(*w)).sum();
        if rendered_count > 0 {
            assert_eq!(sum, u32::from(total) - 6);
        } else {
            assert_eq!(sum, 0);
        }
        for (i, width) in widths.iter().enumerate() {
            assert_eq!(*width != 0, i < rendered_count);
            if *width != 0 {
                assert!(usize::from(*width) >= thresholds[i]);
            }
        }
    }
}

#[test]
fn header_thresholds_are_header_lengths_of_at_least_five() {
    assert_eq!(get_header_thresholds(&["CPU", "Use%"]), vec![5, 5]);
    assert_eq!(get_header_thresholds(&["Sensor", "Temp"]), vec![6, 5]);
    assert_eq!(get_header_thresholds(&["Total RX"]), vec![8]);
}

#[test]
fn table_widths_are_those_of_the_drawn_columns() {
    assert_eq!(table_widths(20, &[5000, 5000], &[5, 5]), vec![10, 9]);
    assert_eq!(table_widths(8, &[5000, 5000], &[5, 5]), vec![7]);
    assert!(table_widths(3, &[5000], &[5]).is_empty());
}
