//! What a table shows of its rows.
//!
//! A table has room for the rows that fit under its header. It draws its
//! rows from the scroll offset on, marks the selected row if it is among
//! them, and gives each column the width that the terminal allows.

use vstd::prelude::*;
use crate::canvas::scroll::{ScrollDirection, get_start_position, scroll_step};
use crate::canvas::widths::{
    allocated_width, get_variable_intrinsic_widths, rendered_count,
};

verus! {

/// The lines of a table's area that hold no rows: the border and the
/// header.
pub const TABLE_GAP: u16 = 5;

/// The least width of a column, whatever its header.
pub const FORCE_MIN_THRESHOLD: usize = 5;

/// The part of a list that a table draws.
#[derive(Clone, Copy, Debug, PartialEq, Eq, Structural)]
pub struct TableWindow {
    /// The index of the first row drawn.
    pub start: usize,
    /// The place of the selected row among the rows drawn, if it is drawn.
    pub selected_row: Option<usize>,
}

/// The number of rows that fit into a table `height` lines high. It is
/// negative where not even the header fits.
pub open spec fn visible_rows(height: u16) -> int {
    height - 5
}

/// An offset held inside a list of `num_items` rows.
pub open spec fn clamped_start(offset: int, num_items: int) -> int {
    if offset < 0 {
        0
    } else if offset > num_items {
        num_items
    } else {
        offset
    }
}

/// The place of row `selected` among the rows drawn from `start` on, if it
/// is one of the `num_items` rows and drawn.
pub open spec fn selected_place(selected: int, start: int, num_items: int) -> Option<usize> {
    if start <= selected < num_items {
        Some((selected - start) as usize)
    } else {
        None
    }
}

/// Works out what a table of `height` lines draws of a list of `num_items`
/// rows when row `currently_selected_position` is selected, and updates the
/// remembered scroll offset.
///
/// The rows are drawn from the scroll offset on, held inside the list. The
/// selected row is marked only where the table is `active`.
pub fn table_window(
    num_items: usize,
    height: u16,
    active: bool,
    scroll_direction: &ScrollDirection,
    previously_scrolled_position: &mut i64,
    currently_selected_position: i64,
) -> (window: TableWindow)
    requires
        scroll_step(
            visible_rows(height),
            *scroll_direction,
            *old(previously_scrolled_position) as int,
            currently_selected_position as int,
        ).offset <= i64::MAX,
    ensures
        ({
            let step = scroll_step(
                visible_rows(height),
                *scroll_direction,
                *old(previously_scrolled_position) as int,
                currently_selected_position as int,
            );
            &&& *final(previously_scrolled_position) == step.remembered
            &&& window.start == clamped_start(step.offset, num_items as int)
            &&& window.selected_row == if active {
                selected_place(
                    currently_selected_position as int,
                    window.start as int,
                    num_items as int,
                )
            } else {
                None
            }
        }),
{
    let num_rows: i64 = height as i64 - TABLE_GAP as i64;
    let start_position: i64 = get_start_position(
        num_rows,
        scroll_direction,
        previously_scrolled_position,
        currently_selected_position,
    );
    let start: usize = if start_position < 0 {
        0
    } else if start_position as u64 > num_items as u64 {
        num_items
    } else {
        start_position as usize
    };
    let selected_row: Option<usize> = if active && currently_selected_position >= 0
        && start as u64 <= currently_selected_position as u64
        && (currently_selected_position as u64) < num_items as u64 {
        Some((currently_selected_position as u64 - start as u64) as usize)
    } else {
        None
    };
    TableWindow { start, selected_row }
}

/// The least width of each column of a table with the given headers: the
/// length of the header, and no less than [`FORCE_MIN_THRESHOLD`].
pub open spec fn header_thresholds(headers: Seq<&str>) -> Seq<usize> {
    headers.map_values(
        |header: &str|
            if header.len() < 5 {
                5usize
            } else {
                header.len()
            },
    )
}

/// Computes the least width of each column from the headers.
pub fn get_header_thresholds(headers: &[&str]) -> (thresholds: Vec<usize>)
    ensures
        thresholds@ == header_thresholds(headers@),
{
    let mut thresholds: Vec<usize> = Vec::new();
    let mut i: usize = 0;
    while i < headers.len()
        invariant
            0 <= i <= headers@.len(),
            thresholds@ == header_thresholds(headers@.take(i as int)),
        decreases headers@.len() - i,
    {
        let length: usize = headers[i].len();
        proof {
            assert(headers@.take(i + 1) =~= headers@.take(i as int).push(headers@[i as int]));
            assert(header_thresholds(headers@.take(i as int).push(headers@[i as int]))
                =~= header_thresholds(headers@.take(i as int)).push(
                if length < 5 {
                    5usize
                } else {
                    length
                },
            ));
        }
        thresholds.push(if length < FORCE_MIN_THRESHOLD {
            FORCE_MIN_THRESHOLD
        } else {
            length
        });
        i = i + 1;
    }
    proof {
        assert(headers@.take(headers@.len() as int) =~= headers@);
    }
    thresholds
}

/// Computes the widths of the columns of a table that are drawn: one width
/// for each drawn column, none of them zero.
pub fn table_widths(total_width: u16, desired_widths_ratio: &[u32], width_thresholds: &[usize]) -> (
    widths: Vec<u16>)
    requires
        desired_widths_ratio@.len() == width_thresholds@.len(),
    ensures
        widths@.len() == rendered_count(
            total_width as int,
            desired_widths_ratio@,
            width_thresholds@,
        ),
        forall|i: int|
            0 <= i < widths@.len() ==> #[trigger] widths@[i] as int == allocated_width(
                total_width as int,
                desired_widths_ratio@,
                width_thresholds@,
                i,
            ),
        forall|i: int| 0 <= i < widths@.len() ==> #[trigger] widths@[i] > 0,
{
    let (mut widths, rendered) = get_variable_intrinsic_widths(
        total_width,
        desired_widths_ratio,
        width_thresholds,
    );
    let ghost all = widths@;
    widths.truncate(rendered);
    proof {
        assert forall|i: int| 0 <= i < widths@.len() implies #[trigger] widths@[i] as int
            == allocated_width(total_width as int, desired_widths_ratio@, width_thresholds@, i)
            && widths@[i] > 0 by {
            assert(widths@[i] == all[i]);
        }
    }
    widths
}

} // verus!
