//! Sorting the process list.
//!
//! The list can be ordered by processor usage, memory usage, process id or
//! name, upwards or downwards. Rows that are equal under the chosen key keep
//! the order they had, so that the list does not jitter from tick to tick.

use vstd::prelude::*;
use vstd::std_specs::iter::IteratorSpec;
use crate::data_collection::processes::ProcessData;

verus! {

/// The key by which the process list is ordered.
#[derive(Clone, Copy, Debug, PartialEq, Eq, Structural)]
pub enum ProcessSorting {
    CPU,
    MEM,
    PID,
    NAME,
}

/// Whether the name `a` stands at or before the name `b` in the order of
/// the dictionary: character by character, a name before those it begins.
pub open spec fn name_at_or_before(a: Seq<char>, b: Seq<char>) -> bool
    decreases a.len(),
{
    if a.len() == 0 {
        true
    } else if b.len() == 0 {
        false
    } else if (a[0] as u32) != (b[0] as u32) {
        (a[0] as u32) < (b[0] as u32)
    } else {
        name_at_or_before(a.drop_first(), b.drop_first())
    }
}

/// Whether the key of `a` is at most that of `b`.
pub open spec fn key_at_most(a: ProcessData, b: ProcessData, key: ProcessSorting) -> bool {
    match key {
        ProcessSorting::CPU => a.cpu_usage_percent <= b.cpu_usage_percent,
        ProcessSorting::MEM => a.mem_usage_percent <= b.mem_usage_percent,
        ProcessSorting::PID => a.pid <= b.pid,
        ProcessSorting::NAME => name_at_or_before(a.name@, b.name@),
    }
}

/// Whether `a` may stand before `b`: its key is at most that of `b`, or at
/// least that of `b` where the order is reversed.
pub open spec fn may_precede(
    a: ProcessData,
    b: ProcessData,
    key: ProcessSorting,
    reverse_order: bool,
) -> bool {
    if reverse_order {
        key_at_most(b, a, key)
    } else {
        key_at_most(a, b, key)
    }
}

/// Whether `a` and `b` are equal under the key.
pub open spec fn ties(a: ProcessData, b: ProcessData, key: ProcessSorting) -> bool {
    key_at_most(a, b, key) && key_at_most(b, a, key)
}

/// The rows of `rows` that tie with `row`, in their order.
pub open spec fn tied_rows(rows: Seq<ProcessData>, row: ProcessData, key: ProcessSorting) -> Seq<
    ProcessData,
> {
    rows.filter(|other: ProcessData| ties(other, row, key))
}

/// Whether `sorted` is `rows` in the given order: the same rows, each
/// standing where it may, and those that tie in the order they had.
pub open spec fn is_sorted_list_of(
    sorted: Seq<ProcessData>,
    rows: Seq<ProcessData>,
    key: ProcessSorting,
    reverse_order: bool,
) -> bool {
    &&& sorted.to_multiset() == rows.to_multiset()
    &&& forall|i: int, j: int|
        0 <= i <= j < sorted.len() ==> may_precede(
            #[trigger] sorted[i],
            #[trigger] sorted[j],
            key,
            reverse_order,
        )
    &&& forall|row: ProcessData| #[trigger] tied_rows(sorted, row, key) == tied_rows(rows, row, key)
}

/// Of two names one stands at or before the other.
pub proof fn lemma_names_are_comparable(a: Seq<char>, b: Seq<char>)
    ensures
        name_at_or_before(a, b) || name_at_or_before(b, a),
    decreases a.len(),
{
    if a.len() > 0 && b.len() > 0 && (a[0] as u32) == (b[0] as u32) {
        lemma_names_are_comparable(a.drop_first(), b.drop_first());
    }
}

/// The order of names carries over: a name at or before a second that is at
/// or before a third is at or before the third.
pub proof fn lemma_names_carry_over(a: Seq<char>, b: Seq<char>, c: Seq<char>)
    requires
        name_at_or_before(a, b),
        name_at_or_before(b, c),
    ensures
        name_at_or_before(a, c),
    decreases a.len(),
{
    if a.len() > 0 {
        if (a[0] as u32) == (b[0] as u32) && (b[0] as u32) == (c[0] as u32) {
            lemma_names_carry_over(a.drop_first(), b.drop_first(), c.drop_first());
        }
    }
}

/// Under every key, any two rows can be compared, and the comparison
/// carries over.
pub proof fn lemma_key_order(a: ProcessData, b: ProcessData, c: ProcessData, key: ProcessSorting)
    ensures
        key_at_most(a, b, key) || key_at_most(b, a, key),
        key_at_most(a, b, key) && key_at_most(b, c, key) ==> key_at_most(a, c, key),
        key_at_most(a, a, key),
{
    lemma_names_are_comparable(a.name@, b.name@);
    lemma_names_are_comparable(a.name@, a.name@);
    if name_at_or_before(a.name@, b.name@) && name_at_or_before(b.name@, c.name@) {
        lemma_names_carry_over(a.name@, b.name@, c.name@);
    }
}

/// The rows that tie with `row` after one more row: that row joins them if
/// it ties.
pub proof fn lemma_tied_rows_push(
    rows: Seq<ProcessData>,
    added: ProcessData,
    row: ProcessData,
    key: ProcessSorting,
)
    ensures
        tied_rows(rows.push(added), row, key) == if ties(added, row, key) {
            tied_rows(rows, row, key).push(added)
        } else {
            tied_rows(rows, row, key)
        },
{
    reveal(Seq::filter);
    assert(rows.push(added).drop_last() =~= rows);
}

/// Among rows none of which ties with `row`, no row ties with `row`.
proof fn lemma_no_tied_rows(rows: Seq<ProcessData>, row: ProcessData, key: ProcessSorting)
    requires
        forall|i: int| 0 <= i < rows.len() ==> !ties(#[trigger] rows[i], row, key),
    ensures
        tied_rows(rows, row, key) == Seq::<ProcessData>::empty(),
    decreases rows.len(),
{
    reveal(Seq::filter);
    if rows.len() > 0 {
        let shorter = rows.drop_last();
        assert forall|i: int| 0 <= i < shorter.len() implies !ties(
            #[trigger] shorter[i],
            row,
            key,
        ) by {
            assert(shorter[i] == rows[i]);
        }
        lemma_no_tied_rows(shorter, row, key);
    }
}

/// Tells whether the name `a` stands at or before the name `b`.
pub fn is_name_at_or_before(a: &str, b: &str) -> (result: bool)
    ensures
        result == name_at_or_before(a@, b@),
{
    broadcast use vstd::string::group_string_axioms;

    let mut left = a.chars();
    let mut right = b.chars();
    loop
        invariant
            name_at_or_before(a@, b@) == name_at_or_before(left.remaining(), right.remaining()),
            left.obeys_prophetic_iter_laws(),
            right.obeys_prophetic_iter_laws(),
            left.decrease() is Some,
        decreases left.decrease()->0,
    {
        let x = left.next();
        let y = right.next();
        match x {
            None => {
                return true;
            },
            Some(x) => match y {
                None => {
                    return false;
                },
                Some(y) => {
                    if (x as u32) != (y as u32) {
                        return (x as u32) < (y as u32);
                    }
                },
            },
        }
    }
}

/// Tells whether the key of `a` is at most that of `b`.
pub fn is_key_at_most(a: &ProcessData, b: &ProcessData, key: &ProcessSorting) -> (result: bool)
    ensures
        result == key_at_most(*a, *b, *key),
{
    match key {
        ProcessSorting::CPU => a.cpu_usage_percent <= b.cpu_usage_percent,
        ProcessSorting::MEM => a.mem_usage_percent <= b.mem_usage_percent,
        ProcessSorting::PID => a.pid <= b.pid,
        ProcessSorting::NAME => is_name_at_or_before(a.name.as_str(), b.name.as_str()),
    }
}

/// Tells whether `a` may stand before `b` in the given order.
pub fn can_precede(
    a: &ProcessData,
    b: &ProcessData,
    key: &ProcessSorting,
    reverse_order: bool,
) -> (result: bool)
    ensures
        result == may_precede(*a, *b, *key, reverse_order),
{
    if reverse_order {
        is_key_at_most(b, a, key)
    } else {
        is_key_at_most(a, b, key)
    }
}

/// Putting `row` into a sorted list, behind the last row that may stand
/// before it, gives the sorted list of the rows with `row` added at their
/// end.
proof fn lemma_insert_keeps_sorted(
    sorted: Seq<ProcessData>,
    rows: Seq<ProcessData>,
    row: ProcessData,
    at: int,
    key: ProcessSorting,
    reverse_order: bool,
)
    requires
        is_sorted_list_of(sorted, rows, key, reverse_order),
        0 <= at <= sorted.len(),
        at > 0 ==> may_precede(sorted[at - 1], row, key, reverse_order),
        forall|k: int| at <= k < sorted.len() ==> !may_precede(
            #[trigger] sorted[k],
            row,
            key,
            reverse_order,
        ),
    ensures
        is_sorted_list_of(sorted.insert(at, row), rows.push(row), key, reverse_order),
{
    broadcast use {vstd::seq_lib::to_multiset_insert, vstd::seq_lib::to_multiset_build};

    let longer = sorted.insert(at, row);
    let left = sorted.subrange(0, at);
    let right = sorted.subrange(at, sorted.len() as int);
    assert(longer.to_multiset() == rows.push(row).to_multiset());
    assert forall|i: int, j: int| 0 <= i <= j < longer.len() implies may_precede(
        #[trigger] longer[i],
        #[trigger] longer[j],
        key,
        reverse_order,
    ) by {
        let a = longer[i];
        let b = longer[j];
        if j < at {
            assert(a == sorted[i] && b == sorted[j]);
        } else if j == at {
            if i < at {
                assert(a == sorted[i]);
                assert(may_precede(sorted[i], sorted[at - 1], key, reverse_order));
                lemma_key_order(sorted[i], sorted[at - 1], row, key);
                lemma_key_order(row, sorted[at - 1], sorted[i], key);
            } else {
                lemma_key_order(row, row, row, key);
            }
        } else {
            assert(b == sorted[j - 1]);
            if i < at {
                assert(a == sorted[i]);
            } else if i == at {
                lemma_key_order(row, sorted[j - 1], row, key);
            } else {
                assert(a == sorted[i - 1]);
            }
        }
    }
    assert forall|other: ProcessData| #[trigger]
        tied_rows(longer, other, key) == tied_rows(rows.push(row), other, key) by {
        assert(sorted =~= left + right);
        assert(longer =~= left.push(row) + right);
        lemma_tied_rows_add(left, right, other, key);
        lemma_tied_rows_add(left.push(row), right, other, key);
        lemma_tied_rows_push(left, row, other, key);
        lemma_tied_rows_push(rows, row, other, key);
        assert(tied_rows(sorted, other, key) == tied_rows(rows, other, key));
        if ties(row, other, key) {
            assert forall|k: int| 0 <= k < right.len() implies !ties(
                #[trigger] right[k],
                other,
                key,
            ) by {
                assert(right[k] == sorted[at + k]);
                lemma_key_order(right[k], other, row, key);
                lemma_key_order(row, other, right[k], key);
            }
            lemma_no_tied_rows(right, other, key);
            let kept = tied_rows(left, other, key);
            assert(kept + Seq::<ProcessData>::empty() =~= kept);
            assert(kept.push(row) + Seq::<ProcessData>::empty() =~= kept.push(row));
        }
    }
}

/// The rows that tie with `row` among two lists, one after the other, are
/// those of the first followed by those of the second.
proof fn lemma_tied_rows_add(
    a: Seq<ProcessData>,
    b: Seq<ProcessData>,
    row: ProcessData,
    key: ProcessSorting,
)
    ensures
        tied_rows(a + b, row, key) == tied_rows(a, row, key) + tied_rows(b, row, key),
{
    Seq::filter_distributes_over_add(a, b, |other: ProcessData| ties(other, row, key));
}

/// Sorts the process list by `sorting_method`, upwards, or downwards where
/// `reverse_order` is set. Rows that tie keep the order they had.
pub fn sort_processes(
    process_vector: &mut Vec<ProcessData>,
    sorting_method: &ProcessSorting,
    reverse_order: bool,
)
    ensures
        is_sorted_list_of(
            final(process_vector)@,
            old(process_vector)@,
            *sorting_method,
            reverse_order,
        ),
{
    let mut rows: Vec<ProcessData> = Vec::new();
    std::mem::swap(process_vector, &mut rows);
    proof {
        assert(rows@.take(0) =~= Seq::<ProcessData>::empty());
        assert(process_vector@ =~= rows@.take(0));
        assert forall|row: ProcessData| #[trigger]
            tied_rows(process_vector@, row, *sorting_method) == tied_rows(
                rows@.take(0),
                row,
                *sorting_method,
            ) by {}
    }
    for row in it: rows.into_iter()
        invariant
            it.seq() == old(process_vector)@,
            is_sorted_list_of(
                process_vector@,
                it.seq().take(it.index() as int),
                *sorting_method,
                reverse_order,
            ),
    {
        let mut at: usize = process_vector.len();
        while at > 0 && !can_precede(&process_vector[at - 1], &row, sorting_method, reverse_order)
            invariant
                0 <= at <= process_vector@.len(),
                forall|k: int|
                    at <= k < process_vector@.len() ==> !may_precede(
                        #[trigger] process_vector@[k],
                        row,
                        *sorting_method,
                        reverse_order,
                    ),
            decreases at,
        {
            at = at - 1;
        }
        proof {
            let seen = it.seq().take(it.index() as int);
            assert(it.seq().take(it.index() + 1) =~= seen.push(row));
            lemma_insert_keeps_sorted(
                process_vector@,
                seen,
                row,
                at as int,
                *sorting_method,
                reverse_order,
            );
        }
        process_vector.insert(at, row);
    }
    proof {
        assert(old(process_vector)@.take(old(process_vector)@.len() as int)
            =~= old(process_vector)@);
    }
}

} // verus!
