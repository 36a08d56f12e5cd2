//! Column widths for a table that has to fit a given total width.
//!
//! Each column asks for a share of the total width and names the least width
//! at which it is still legible. One pass from left to right hands out
//! widths; the first column that cannot get its least width ends the pass,
//! and that column and all after it are not drawn. What is left over is then
//! spread evenly over the columns that are drawn.
//!
//! Shares are given in basis points: 10 000 is the whole width.

use vstd::prelude::*;
use vstd::arithmetic::div_mod::lemma_fundamental_div_mod;
use vstd::arithmetic::div_mod::lemma_mod_bound;

verus! {

/// The number of basis points in a whole.
pub const BASIS_POINTS: u32 = 10_000;

/// The width a column asks for: its share of the total width, rounded down.
pub open spec fn desired_width(total_width: int, ratio: int) -> int {
    ratio * total_width / 10_000
}

/// The width one column gets from the main pass when `remaining` is still to
/// be handed out. Zero means that the column does not fit.
pub open spec fn column_width(desired: int, threshold: int, remaining: int) -> int {
    if desired < threshold {
        if remaining >= threshold {
            threshold
        } else {
            0
        }
    } else if remaining >= desired {
        desired
    } else if remaining >= threshold {
        remaining
    } else {
        0
    }
}

/// The state of the main pass between two columns.
pub struct Pass {
    /// The width that is still to be handed out.
    pub remaining: int,
    /// The number of columns that got a width.
    pub rendered: int,
    /// Whether a column did not fit, which ends the pass.
    pub stopped: bool,
}

/// The state of the main pass after it has looked at the first `k` columns.
/// One unit of width per gap between columns is set aside before it starts.
pub open spec fn main_pass(
    total_width: int,
    ratios: Seq<u32>,
    thresholds: Seq<usize>,
    k: int,
) -> Pass
    decreases k,
{
    if k <= 0 {
        Pass { remaining: total_width - (ratios.len() - 1), rendered: 0, stopped: false }
    } else {
        let before = main_pass(total_width, ratios, thresholds, k - 1);
        let width = column_width(
            desired_width(total_width, ratios[k - 1] as int),
            thresholds[k - 1] as int,
            before.remaining,
        );
        if before.stopped || width == 0 {
            Pass { remaining: before.remaining, rendered: before.rendered, stopped: true }
        } else {
            Pass {
                remaining: before.remaining - width,
                rendered: before.rendered + 1,
                stopped: false,
            }
        }
    }
}

/// The number of columns that are drawn.
pub open spec fn rendered_count(total_width: int, ratios: Seq<u32>, thresholds: Seq<usize>) -> int {
    main_pass(total_width, ratios, thresholds, ratios.len() as int).rendered
}

/// The width that the main pass leaves over.
pub open spec fn leftover_width(total_width: int, ratios: Seq<u32>, thresholds: Seq<usize>) -> int {
    main_pass(total_width, ratios, thresholds, ratios.len() as int).remaining
}

/// The width that the main pass gives to column `i`.
pub open spec fn base_width(
    total_width: int,
    ratios: Seq<u32>,
    thresholds: Seq<usize>,
    i: int,
) -> int {
    let before = main_pass(total_width, ratios, thresholds, i);
    if before.stopped {
        0
    } else {
        column_width(
            desired_width(total_width, ratios[i] as int),
            thresholds[i] as int,
            before.remaining,
        )
    }
}

/// What column `i` of `rendered` drawn columns gets of the leftover: an
/// equal part, and one unit more for the first columns while the remainder
/// lasts.
pub open spec fn leftover_share(leftover: int, rendered: int, i: int) -> int {
    if 0 <= i < rendered {
        leftover / rendered + if i < leftover % rendered {
            1int
        } else {
            0int
        }
    } else {
        0
    }
}

/// The final width of column `i`: zero for a column that is not drawn.
pub open spec fn allocated_width(
    total_width: int,
    ratios: Seq<u32>,
    thresholds: Seq<usize>,
    i: int,
) -> int {
    let rendered = rendered_count(total_width, ratios, thresholds);
    if 0 <= i < rendered {
        base_width(total_width, ratios, thresholds, i) + leftover_share(
            leftover_width(total_width, ratios, thresholds),
            rendered,
            i,
        )
    } else {
        0
    }
}

/// The sum of a list of widths.
pub open spec fn total_of(widths: Seq<u16>) -> int
    decreases widths.len(),
{
    if widths.len() == 0 {
        0
    } else {
        total_of(widths.drop_last()) + widths.last() as int
    }
}

/// Once the pass has stopped, looking at more columns changes nothing.
pub proof fn lemma_stopped_pass_stays(
    total_width: int,
    ratios: Seq<u32>,
    thresholds: Seq<usize>,
    k: int,
    m: int,
)
    requires
        0 <= k <= m,
        main_pass(total_width, ratios, thresholds, k).stopped,
    ensures
        main_pass(total_width, ratios, thresholds, m) == main_pass(
            total_width,
            ratios,
            thresholds,
            k,
        ),
    decreases m - k,
{
    if k < m {
        lemma_stopped_pass_stays(total_width, ratios, thresholds, k, m - 1);
    }
}

/// What the main pass has handed out and what it has kept add up, and it
/// never hands out more than it has.
pub proof fn lemma_main_pass_shape(
    total_width: int,
    ratios: Seq<u32>,
    thresholds: Seq<usize>,
    k: int,
)
    requires
        0 <= k <= ratios.len(),
        ratios.len() == thresholds.len(),
    ensures
        ({
            let pass = main_pass(total_width, ratios, thresholds, k);
            &&& 0 <= pass.rendered <= k
            &&& !pass.stopped ==> pass.rendered == k
            &&& pass.stopped ==> pass.rendered < k
            &&& pass.rendered > 0 ==> pass.remaining >= 0
            &&& pass.remaining <= total_width - (ratios.len() - 1)
            &&& pass == main_pass(total_width, ratios, thresholds, pass.rendered + if pass.stopped {
                1int
            } else {
                0int
            })
            &&& main_pass(total_width, ratios, thresholds, pass.rendered).stopped == false
            &&& main_pass(total_width, ratios, thresholds, pass.rendered).remaining
                == pass.remaining
        }),
    decreases k,
{
    if k > 0 {
        lemma_main_pass_shape(total_width, ratios, thresholds, k - 1);
        let before = main_pass(total_width, ratios, thresholds, k - 1);
        if before.stopped {
            lemma_stopped_pass_stays(total_width, ratios, thresholds, before.rendered + 1, k);
        }
    }
}

/// Computes the widths of a table's columns and the number of columns that
/// are drawn.
///
/// `desired_widths_ratio` holds each column's share of `total_width` in
/// basis points, `width_thresholds` the least width of each. Column `i` of
/// the result has [`allocated_width`]; the columns from the returned count on
/// have width zero and are not drawn.
pub fn get_variable_intrinsic_widths(
    total_width: u16,
    desired_widths_ratio: &[u32],
    width_thresholds: &[usize],
) -> (result: (Vec<u16>, usize))
    requires
        desired_widths_ratio@.len() == width_thresholds@.len(),
    ensures
        result.0@.len() == desired_widths_ratio@.len(),
        result.1 == rendered_count(total_width as int, desired_widths_ratio@, width_thresholds@),
        forall|i: int|
            0 <= i < result.0@.len() ==> #[trigger] result.0@[i] as int == allocated_width(
                total_width as int,
                desired_widths_ratio@,
                width_thresholds@,
                i,
            ),
        // The widths never add up to more than the total width less the gaps.
        total_width >= desired_widths_ratio@.len() - 1 ==> total_of(result.0@) <= total_width - (
        desired_widths_ratio@.len() - 1),
        // Drawn columns share out all of it.
        result.1 > 0 ==> total_of(result.0@) == total_width - (desired_widths_ratio@.len() - 1),
        result.1 == 0 ==> total_of(result.0@) == 0,
        // A column that is drawn is at least as wide as its threshold.
        forall|i: int|
            0 <= i < result.0@.len() && #[trigger] result.0@[i] != 0 ==> result.0@[i]
                >= width_thresholds@[i],
        // The drawn columns are those before the first zero width.
        result.1 <= result.0@.len(),
        forall|i: int| 0 <= i < result.0@.len() ==> (#[trigger] result.0@[i] != 0 <==> i < result.1),
{
    let num_widths: usize = desired_widths_ratio.len();
    let ghost total = total_width as int;
    let ghost ratios = desired_widths_ratio@;
    let ghost thresholds = width_thresholds@;

    let mut resulting_widths: Vec<u16> = Vec::new();
    let mut remaining_width: i128 = (total_width as i128) - ((num_widths as i128) - 1);
    let mut last_index: usize = 0;
    let mut stopped: bool = false;

    let mut itx: usize = 0;
    while itx < num_widths
        invariant
            num_widths == ratios.len(),
            ratios.len() == thresholds.len(),
            ratios == desired_widths_ratio@,
            thresholds == width_thresholds@,
            total == total_width as int,
            0 <= itx <= num_widths,
            resulting_widths@.len() == itx,
            main_pass(total, ratios, thresholds, itx as int) == (Pass {
                remaining: remaining_width as int,
                rendered: last_index as int,
                stopped,
            }),
            forall|j: int|
                0 <= j < itx ==> #[trigger] resulting_widths@[j] as int == base_width(
                    total,
                    ratios,
                    thresholds,
                    j,
                ),
        decreases num_widths - itx,
    {
        proof {
            lemma_main_pass_shape(total, ratios, thresholds, itx as int);
        }
        let width: u16 = if stopped {
            0
        } else {
            let ratio: u64 = desired_widths_ratio[itx] as u64;
            assert(ratio * (total_width as u64) <= 0xffff_ffff * 0xffff) by (nonlinear_arith)
                requires
                    ratio <= 0xffff_ffff,
                    total_width <= 0xffff,
            ;
            let desired: i128 = (ratio * (total_width as u64) / (BASIS_POINTS as u64)) as i128;
            let threshold: i128 = width_thresholds[itx] as i128;
            let granted: i128 = if desired < threshold {
                if remaining_width >= threshold {
                    threshold
                } else {
                    0
                }
            } else if remaining_width >= desired {
                desired
            } else if remaining_width >= threshold {
                remaining_width
            } else {
                0
            };
            assert(granted == column_width(
                desired_width(total, ratios[itx as int] as int),
                thresholds[itx as int] as int,
                remaining_width as int,
            ));
            if granted == 0 {
                stopped = true;
            } else {
                remaining_width = remaining_width - granted;
                last_index = last_index + 1;
            }
            granted as u16
        };
        resulting_widths.push(width);
        itx = itx + 1;
    }

    proof {
        lemma_main_pass_shape(total, ratios, thresholds, num_widths as int);
    }
    if last_index > 0 {
        let for_all_widths: i128 = remaining_width / (last_index as i128);
        let remainder: i128 = remaining_width % (last_index as i128);
        proof {
            lemma_fundamental_div_mod(remaining_width as int, last_index as int);
            lemma_mod_bound(remaining_width as int, last_index as int);
            lemma_leftover_share_bounds(remaining_width as int, last_index as int);
        }
        let mut i: usize = 0;
        while i < last_index
            invariant
                num_widths == ratios.len(),
                ratios.len() == thresholds.len(),
                total == total_width as int,
                0 < last_index <= num_widths,
                0 <= i <= last_index,
                resulting_widths@.len() == num_widths,
                last_index as int == rendered_count(total, ratios, thresholds),
                remaining_width as int == leftover_width(total, ratios, thresholds),
                0 <= remaining_width <= total,
                for_all_widths == remaining_width as int / last_index as int,
                remainder == remaining_width as int % last_index as int,
                forall|j: int|
                    0 <= j < i ==> #[trigger] resulting_widths@[j] as int == allocated_width(
                        total,
                        ratios,
                        thresholds,
                        j,
                    ),
                forall|j: int|
                    i <= j < num_widths ==> #[trigger] resulting_widths@[j] as int == base_width(
                        total,
                        ratios,
                        thresholds,
                        j,
                    ),
            decreases last_index - i,
        {
            proof {
                lemma_allocated_width_bounds(total, ratios, thresholds, i as int);
            }
            let extra: i128 = if (i as i128) < remainder {
                1
            } else {
                0
            };
            let widened: i128 = (resulting_widths[i] as i128) + for_all_widths + extra;
            resulting_widths.set(i, widened as u16);
            i = i + 1;
        }
        proof {
            assert forall|j: int| 0 <= j < resulting_widths@.len() implies #[trigger] resulting_widths@[j] as int
                == allocated_width(total, ratios, thresholds, j) by {
                if j >= last_index {
                    lemma_undrawn_columns_have_no_base(total, ratios, thresholds, j);
                }
            }
        }
    } else {
        proof {
            assert forall|j: int| 0 <= j < resulting_widths@.len() implies #[trigger] resulting_widths@[j] as int
                == allocated_width(total, ratios, thresholds, j) by {
                lemma_undrawn_columns_have_no_base(total, ratios, thresholds, j);
            }
        }
    }
    proof {
        lemma_widths_add_up(total, ratios, thresholds, resulting_widths@);
        assert forall|j: int| 0 <= j < resulting_widths@.len() implies (
        #[trigger] resulting_widths@[j] != 0 <==> j < last_index) && (resulting_widths@[j] != 0
            ==> resulting_widths@[j] >= thresholds[j]) by {
            if j < last_index {
                lemma_allocated_width_bounds(total, ratios, thresholds, j);
                lemma_base_width_reaches_threshold(total, ratios, thresholds, j);
            }
        }
    }
    (resulting_widths, last_index)
}

/// What the main pass gives a column is zero or at least the column's
/// threshold.
pub proof fn lemma_base_width_reaches_threshold(
    total_width: int,
    ratios: Seq<u32>,
    thresholds: Seq<usize>,
    i: int,
)
    requires
        ratios.len() == thresholds.len(),
        0 <= i < ratios.len(),
    ensures
        base_width(total_width, ratios, thresholds, i) == 0 || base_width(
            total_width,
            ratios,
            thresholds,
            i,
        ) >= thresholds[i],
{
}

/// The sum of the first `k` final widths: what the main pass handed out to
/// the drawn columns among them, and their shares of the leftover.
proof fn lemma_prefix_total(
    total_width: int,
    ratios: Seq<u32>,
    thresholds: Seq<usize>,
    widths: Seq<u16>,
    k: int,
)
    requires
        ratios.len() == thresholds.len(),
        widths.len() == ratios.len(),
        forall|i: int|
            0 <= i < widths.len() ==> #[trigger] widths[i] as int == allocated_width(
                total_width,
                ratios,
                thresholds,
                i,
            ),
        0 <= k <= widths.len(),
    ensures
        ({
            let rendered = rendered_count(total_width, ratios, thresholds);
            let leftover = leftover_width(total_width, ratios, thresholds);
            let drawn = if k <= rendered {
                k
            } else {
                rendered
            };
            let shared = if rendered > 0 {
                drawn * (leftover / rendered) + if drawn <= leftover % rendered {
                    drawn
                } else {
                    leftover % rendered
                }
            } else {
                0
            };
            &&& !main_pass(total_width, ratios, thresholds, drawn).stopped
            &&& total_of(widths.take(k)) == (total_width - (ratios.len() - 1)) - main_pass(
                total_width,
                ratios,
                thresholds,
                drawn,
            ).remaining + shared
        }),
    decreases k,
{
    let n = ratios.len() as int;
    let rendered = rendered_count(total_width, ratios, thresholds);
    let leftover = leftover_width(total_width, ratios, thresholds);
    lemma_main_pass_shape(total_width, ratios, thresholds, n);
    if k == 0 {
        assert(widths.take(0).len() == 0);
        if rendered > 0 {
            assert(0 * (leftover / rendered) == 0);
            lemma_allocated_width_bounds(total_width, ratios, thresholds, 0);
            lemma_mod_bound(leftover, rendered);
        }
    } else {
        lemma_prefix_total(total_width, ratios, thresholds, widths, k - 1);
        assert(widths.take(k).drop_last() =~= widths.take(k - 1));
        assert(widths.take(k).last() == widths[k - 1]);
        if k <= rendered {
            lemma_allocated_width_bounds(total_width, ratios, thresholds, k - 1);
            lemma_mod_bound(leftover, rendered);
            let q = leftover / rendered;
            assert(k * q == (k - 1) * q + q) by (nonlinear_arith);
            let at = main_pass(total_width, ratios, thresholds, k);
            if at.stopped {
                lemma_stopped_pass_stays(total_width, ratios, thresholds, k, n);
            }
        }
    }
}

/// The final widths add up to the total width less the gaps when a column is
/// drawn, and to zero when none is.
pub proof fn lemma_widths_add_up(
    total_width: int,
    ratios: Seq<u32>,
    thresholds: Seq<usize>,
    widths: Seq<u16>,
)
    requires
        ratios.len() == thresholds.len(),
        widths.len() == ratios.len(),
        forall|i: int|
            0 <= i < widths.len() ==> #[trigger] widths[i] as int == allocated_width(
                total_width,
                ratios,
                thresholds,
                i,
            ),
    ensures
        rendered_count(total_width, ratios, thresholds) > 0 ==> total_of(widths) == total_width - (
        ratios.len() - 1),
        rendered_count(total_width, ratios, thresholds) <= 0 ==> total_of(widths) == 0,
        total_width >= ratios.len() - 1 ==> total_of(widths) <= total_width - (ratios.len() - 1),
{
    let n = ratios.len() as int;
    let rendered = rendered_count(total_width, ratios, thresholds);
    let leftover = leftover_width(total_width, ratios, thresholds);
    lemma_main_pass_shape(total_width, ratios, thresholds, n);
    lemma_prefix_total(total_width, ratios, thresholds, widths, n);
    assert(widths.take(n) =~= widths);
    if rendered > 0 {
        lemma_fundamental_div_mod(leftover, rendered);
        lemma_mod_bound(leftover, rendered);
        assert(rendered * (leftover / rendered) == (leftover / rendered) * rendered)
            by (nonlinear_arith);
    }
}

/// A share of a leftover that is not negative is not negative, and no more
/// than the leftover.
pub proof fn lemma_leftover_share_bounds(leftover: int, rendered: int)
    requires
        leftover >= 0,
        rendered > 0,
    ensures
        forall|i: int| 0 <= #[trigger] leftover_share(leftover, rendered, i) <= leftover,
{
    lemma_fundamental_div_mod(leftover, rendered);
    lemma_mod_bound(leftover, rendered);
    let q = leftover / rendered;
    let r = leftover % rendered;
    assert(q >= 0 && rendered * q + r == leftover);
    assert(q <= rendered * q) by (nonlinear_arith)
        requires
            q >= 0,
            rendered >= 1,
    ;
    assert forall|i: int| 0 <= #[trigger] leftover_share(leftover, rendered, i) <= leftover by {
        if 0 <= i < rendered && i < r {
            assert(r >= 1);
        }
    }
}

/// A column from the rendered count on gets nothing from the main pass.
pub proof fn lemma_undrawn_columns_have_no_base(
    total_width: int,
    ratios: Seq<u32>,
    thresholds: Seq<usize>,
    i: int,
)
    requires
        ratios.len() == thresholds.len(),
        rendered_count(total_width, ratios, thresholds) <= i < ratios.len(),
    ensures
        base_width(total_width, ratios, thresholds, i) == 0,
{
    let n = ratios.len() as int;
    let rendered = rendered_count(total_width, ratios, thresholds);
    lemma_main_pass_shape(total_width, ratios, thresholds, n);
    lemma_main_pass_shape(total_width, ratios, thresholds, i);
    lemma_main_pass_shape(total_width, ratios, thresholds, i + 1);
    let at = main_pass(total_width, ratios, thresholds, i);
    let after = main_pass(total_width, ratios, thresholds, i + 1);
    if !at.stopped {
        if !after.stopped {
            // The pass got through column `i`, so it drew more than `i` columns.
            lemma_rendered_grows(total_width, ratios, thresholds, i + 1, n);
        }
    }
}

/// Looking at more columns never lowers the number of columns drawn.
pub proof fn lemma_rendered_grows(
    total_width: int,
    ratios: Seq<u32>,
    thresholds: Seq<usize>,
    k: int,
    m: int,
)
    requires
        0 <= k <= m,
    ensures
        main_pass(total_width, ratios, thresholds, k).rendered <= main_pass(
            total_width,
            ratios,
            thresholds,
            m,
        ).rendered,
    decreases m - k,
{
    if k < m {
        lemma_rendered_grows(total_width, ratios, thresholds, k, m - 1);
    }
}

/// The final width of a drawn column is positive, at least what the main
/// pass gave it, and fits in what was there to hand out.
pub proof fn lemma_allocated_width_bounds(
    total_width: int,
    ratios: Seq<u32>,
    thresholds: Seq<usize>,
    i: int,
)
    requires
        ratios.len() == thresholds.len(),
        0 <= i < rendered_count(total_width, ratios, thresholds),
    ensures
        0 < base_width(total_width, ratios, thresholds, i) <= allocated_width(
            total_width,
            ratios,
            thresholds,
            i,
        ) <= total_width - (ratios.len() - 1),
        leftover_width(total_width, ratios, thresholds) >= 0,
        base_width(total_width, ratios, thresholds, i) + leftover_width(
            total_width,
            ratios,
            thresholds,
        ) <= total_width - (ratios.len() - 1),
{
    let n = ratios.len() as int;
    let rendered = rendered_count(total_width, ratios, thresholds);
    let leftover = leftover_width(total_width, ratios, thresholds);
    lemma_main_pass_shape(total_width, ratios, thresholds, n);
    lemma_main_pass_shape(total_width, ratios, thresholds, i);
    lemma_main_pass_shape(total_width, ratios, thresholds, i + 1);
    let at = main_pass(total_width, ratios, thresholds, i);
    let after = main_pass(total_width, ratios, thresholds, i + 1);
    if at.stopped {
        lemma_stopped_pass_stays(total_width, ratios, thresholds, i, n);
    }
    if after.stopped {
        lemma_stopped_pass_stays(total_width, ratios, thresholds, i + 1, n);
    }
    assert(!at.stopped && !after.stopped);
    lemma_remaining_shrinks(total_width, ratios, thresholds, i + 1, n);
    lemma_leftover_share_bounds(leftover, rendered);
}

/// Looking at more columns never raises what is still to be handed out.
pub proof fn lemma_remaining_shrinks(
    total_width: int,
    ratios: Seq<u32>,
    thresholds: Seq<usize>,
    k: int,
    m: int,
)
    requires
        ratios.len() == thresholds.len(),
        0 <= k <= m <= ratios.len(),
    ensures
        main_pass(total_width, ratios, thresholds, m).remaining <= main_pass(
            total_width,
            ratios,
            thresholds,
            k,
        ).remaining,
    decreases m - k,
{
    if k < m {
        lemma_remaining_shrinks(total_width, ratios, thresholds, k, m - 1);
        lemma_main_pass_shape(total_width, ratios, thresholds, m);
        lemma_main_pass_shape(total_width, ratios, thresholds, m - 1);
    }
}

} // verus!
