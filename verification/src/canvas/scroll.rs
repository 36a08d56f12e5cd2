//! The sticky scroll window of a table.
//!
//! A table remembers the index of the first row it drew last time. When the
//! selection moves, the window follows only as far as it must.

use vstd::prelude::*;

verus! {

/// The direction in which the selection last moved.
#[derive(Clone, Copy, Debug, PartialEq, Eq, Structural)]
pub enum ScrollDirection {
    UP,
    DOWN,
}

/// The outcome of one scroll step: the offset to draw from, and the offset
/// that is remembered for the next step.
pub struct ScrollStep {
    pub offset: int,
    pub remembered: int,
}

/// The scroll rule.
///
/// Moving down, a selection inside the remembered window leaves the window
/// where it is; one past the window pulls the window down to
/// `selected - num_rows`; one before a full page shows the list from the top
/// without touching what is remembered. Moving up, a selection at or above
/// the remembered offset becomes the new offset.
pub open spec fn scroll_step(
    num_rows: int,
    direction: ScrollDirection,
    previous: int,
    selected: int,
) -> ScrollStep {
    match direction {
        ScrollDirection::DOWN => {
            if selected < previous + num_rows {
                ScrollStep { offset: previous, remembered: previous }
            } else if selected >= num_rows {
                ScrollStep { offset: selected - num_rows, remembered: selected - num_rows }
            } else {
                ScrollStep { offset: 0, remembered: previous }
            }
        },
        ScrollDirection::UP => {
            if selected <= previous {
                ScrollStep { offset: selected, remembered: selected }
            } else {
                ScrollStep { offset: previous, remembered: previous }
            }
        },
    }
}

/// Computes the index of the first row to draw and updates the remembered
/// offset, following [`scroll_step`].
pub fn get_start_position(
    num_rows: i64,
    scroll_direction: &ScrollDirection,
    previously_scrolled_position: &mut i64,
    currently_selected_position: i64,
) -> (start: i64)
    requires
        scroll_step(
            num_rows as int,
            *scroll_direction,
            *old(previously_scrolled_position) as int,
            currently_selected_position as int,
        ).offset <= i64::MAX,
    ensures
        start == scroll_step(
            num_rows as int,
            *scroll_direction,
            *old(previously_scrolled_position) as int,
            currently_selected_position as int,
        ).offset,
        *final(previously_scrolled_position) == scroll_step(
            num_rows as int,
            *scroll_direction,
            *old(previously_scrolled_position) as int,
            currently_selected_position as int,
        ).remembered,
{
    let previous: i64 = *previously_scrolled_position;
    match scroll_direction {
        ScrollDirection::DOWN => {
            if (currently_selected_position as i128) < (previous as i128) + (num_rows as i128) {
                previous
            } else if currently_selected_position >= num_rows {
                *previously_scrolled_position = currently_selected_position - num_rows;
                currently_selected_position - num_rows
            } else {
                0
            }
        },
        ScrollDirection::UP => {
            if currently_selected_position <= previous {
                *previously_scrolled_position = currently_selected_position;
                currently_selected_position
            } else {
                previous
            }
        },
    }
}

/// The steps taken when the selections of `selections` are handled one after
/// another, all moving down, starting from the remembered offset `previous`.
pub open spec fn scroll_down_run(num_rows: int, previous: int, selections: Seq<int>) -> Seq<
    ScrollStep,
>
    decreases selections.len(),
{
    if selections.len() == 0 {
        Seq::empty()
    } else {
        let earlier = scroll_down_run(num_rows, previous, selections.drop_last());
        let before = if earlier.len() == 0 {
            previous
        } else {
            earlier.last().remembered
        };
        earlier.push(scroll_step(num_rows, ScrollDirection::DOWN, before, selections.last()))
    }
}

/// One step down never moves the window up, and a step up never moves it
/// down.
pub proof fn lemma_scroll_step_follows_direction(num_rows: int, previous: int, selected: int)
    ensures
        scroll_step(num_rows, ScrollDirection::DOWN, previous, selected).offset >= previous,
        scroll_step(num_rows, ScrollDirection::DOWN, previous, selected).remembered >= previous,
        scroll_step(num_rows, ScrollDirection::UP, previous, selected).offset <= previous,
        scroll_step(num_rows, ScrollDirection::UP, previous, selected).remembered <= previous,
{
}

/// After a step down from a window that does not start below the selection,
/// the selection is at most one row past the window: `offset <= selected <=
/// offset + num_rows`. It is strictly inside, `selected < offset + num_rows`,
/// exactly when the window did not have to be pulled down.
pub proof fn lemma_scroll_down_window(num_rows: int, previous: int, selected: int)
    requires
        num_rows > 0,
        0 <= selected,
        previous <= selected,
    ensures
        ({
            let step = scroll_step(num_rows, ScrollDirection::DOWN, previous, selected);
            &&& step.offset <= selected <= step.offset + num_rows
            &&& selected < step.offset + num_rows <==> (selected < previous + num_rows || selected
                < num_rows)
        }),
{
}

/// After a step up the selection is never above the window; it is inside
/// the window whenever it was inside the remembered one.
pub proof fn lemma_scroll_up_window(num_rows: int, previous: int, selected: int)
    ensures
        ({
            let step = scroll_step(num_rows, ScrollDirection::UP, previous, selected);
            &&& step.offset <= selected
            &&& selected < previous + num_rows && num_rows > 0 ==> selected < step.offset + num_rows
        }),
{
}

/// For selections that only grow, all handled moving down from a window that
/// does not start below the first of them: the returned offsets never
/// decrease, and after each step `offset <= selected <= offset + num_rows`.
pub proof fn lemma_scroll_down_run(num_rows: int, previous: int, selections: Seq<int>)
    requires
        num_rows > 0,
        selections.len() > 0,
        previous <= selections[0],
        forall|i: int| 0 <= i < selections.len() ==> 0 <= #[trigger] selections[i],
        forall|i: int, j: int|
            0 <= i <= j < selections.len() ==> #[trigger] selections[i] <= #[trigger] selections[j],
    ensures
        ({
            let run = scroll_down_run(num_rows, previous, selections);
            &&& run.len() == selections.len()
            &&& forall|i: int, j: int|
                0 <= i <= j < run.len() ==> #[trigger] run[i].offset <= #[trigger] run[j].offset
            &&& forall|i: int|
                0 <= i < run.len() ==> (#[trigger] run[i]).offset <= selections[i] <= run[i].offset
                    + num_rows
            &&& forall|i: int|
                0 <= i < run.len() ==> previous <= (#[trigger] run[i]).remembered <= run[i].offset
        }),
    decreases selections.len(),
{
    let run = scroll_down_run(num_rows, previous, selections);
    if selections.len() == 1 {
        assert(selections.drop_last().len() == 0);
        assert(scroll_down_run(num_rows, previous, selections.drop_last()).len() == 0);
        assert(selections.last() == selections[0]);
    } else {
        let shorter = selections.drop_last();
        let earlier = scroll_down_run(num_rows, previous, shorter);
        assert(shorter[0] == selections[0]);
        assert forall|i: int| 0 <= i < shorter.len() implies 0 <= #[trigger] shorter[i] by {
            assert(shorter[i] == selections[i]);
        }
        assert forall|i: int, j: int| 0 <= i <= j < shorter.len() implies #[trigger] shorter[i]
            <= #[trigger] shorter[j] by {
            assert(shorter[i] == selections[i]);
            assert(shorter[j] == selections[j]);
        }
        lemma_scroll_down_run(num_rows, previous, shorter);
        let n = earlier.len() as int;
        let before = earlier.last();
        assert(before == earlier[n - 1]);
        assert(shorter[n - 1] == selections[n - 1]);
        assert(selections[n - 1] <= selections[n]);
        let step = scroll_step(
            num_rows,
            ScrollDirection::DOWN,
            before.remembered,
            selections.last(),
        );
        assert(run == earlier.push(step));
        assert(run[n] == step);
        assert forall|i: int| 0 <= i < n implies run[i] == earlier[i] by {}
        assert(earlier[n - 1].offset <= step.offset);
        assert forall|i: int, j: int| 0 <= i <= j < run.len() implies #[trigger] run[i].offset
            <= #[trigger] run[j].offset by {
            if j < n {
                assert(run[i] == earlier[i]);
                assert(run[j] == earlier[j]);
            } else if i < n {
                assert(run[i] == earlier[i]);
                assert(earlier[i].offset <= earlier[n - 1].offset);
            }
        }
        assert forall|i: int| 0 <= i < run.len() implies (#[trigger] run[i]).offset
            <= selections[i] <= run[i].offset + num_rows by {
            if i < n {
                assert(run[i] == earlier[i]);
                assert(shorter[i] == selections[i]);
            }
        }
        assert forall|i: int| 0 <= i < run.len() implies previous <= (
        #[trigger] run[i]).remembered <= run[i].offset by {
            if i < n {
                assert(run[i] == earlier[i]);
            }
        }
    }
}

} // verus!
