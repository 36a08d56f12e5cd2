//! Grouping the process list by name.
//!
//! Processes that share a name are shown as one row: their usage added up,
//! and the ids of all of them kept so that the whole group can be acted on.
//! Groups stand in the order in which their names first appear.

use vstd::prelude::*;
use crate::data_collection::processes::ProcessData;

verus! {

/// The names of the rows, each once, in the order of their first
/// appearance.
pub open spec fn group_names(rows: Seq<ProcessData>) -> Seq<Seq<char>>
    decreases rows.len(),
{
    if rows.len() == 0 {
        Seq::empty()
    } else {
        let earlier = group_names(rows.drop_last());
        if earlier.contains(rows.last().name@) {
            earlier
        } else {
            earlier.push(rows.last().name@)
        }
    }
}

/// The rows named `name`, in their order.
pub open spec fn members(rows: Seq<ProcessData>, name: Seq<char>) -> Seq<ProcessData> {
    rows.filter(|row: ProcessData| row.name@ == name)
}

/// The processor usage of all `rows` together.
pub open spec fn cpu_total(rows: Seq<ProcessData>) -> int
    decreases rows.len(),
{
    if rows.len() == 0 {
        0
    } else {
        cpu_total(rows.drop_last()) + rows.last().cpu_usage_percent
    }
}

/// The memory usage of all `rows` together.
pub open spec fn mem_total(rows: Seq<ProcessData>) -> int
    decreases rows.len(),
{
    if rows.len() == 0 {
        0
    } else {
        mem_total(rows.drop_last()) + rows.last().mem_usage_percent
    }
}

/// A sum as it is kept in a row: held at the largest `u64` where it would
/// not fit.
pub open spec fn saturated(sum: int) -> u64 {
    if sum > u64::MAX {
        u64::MAX
    } else {
        sum as u64
    }
}

/// The ids of `rows`, in their order.
pub open spec fn pids_of(rows: Seq<ProcessData>) -> Seq<u32> {
    rows.map_values(|row: ProcessData| row.pid)
}

/// Whether `group` is the row that stands for the rows named `name`: it
/// carries their name, the id of the first of them, their usage added up
/// and the ids of all of them.
pub open spec fn is_group_of(group: ProcessData, rows: Seq<ProcessData>, name: Seq<char>) -> bool {
    let members = members(rows, name);
    &&& members.len() > 0
    &&& group.name@ == name
    &&& group.pid == members[0].pid
    &&& group.cpu_usage_percent == saturated(cpu_total(members))
    &&& group.mem_usage_percent == saturated(mem_total(members))
    &&& group.pid_vec is Some
    &&& group.pid_vec->0@ == pids_of(members)
}

/// Whether `groups` is `rows` grouped by name: one group for each name, in
/// the order in which the names first appear.
pub open spec fn is_grouping_of(groups: Seq<ProcessData>, rows: Seq<ProcessData>) -> bool {
    &&& groups.len() == group_names(rows).len()
    &&& forall|g: int|
        0 <= g < groups.len() ==> is_group_of(#[trigger] groups[g], rows, group_names(rows)[g])
}

/// The rows named `name` after one more row: that row joins them if it
/// carries the name.
pub proof fn lemma_members_push(rows: Seq<ProcessData>, row: ProcessData, name: Seq<char>)
    ensures
        members(rows.push(row), name) == if row.name@ == name {
            members(rows, name).push(row)
        } else {
            members(rows, name)
        },
{
    reveal(Seq::filter);
    assert(rows.push(row).drop_last() =~= rows);
}

/// No name stands twice among the group names, each of them is the name of
/// a row, and the name of every row is among them.
pub proof fn lemma_group_names(rows: Seq<ProcessData>)
    ensures
        group_names(rows).no_duplicates(),
        forall|i: int| 0 <= i < rows.len() ==> group_names(rows).contains((#[trigger] rows[i]).name@),
        forall|g: int|
            0 <= g < group_names(rows).len() ==> members(rows, #[trigger] group_names(rows)[g]).len()
                > 0,
        forall|name: Seq<char>|
            !group_names(rows).contains(name) ==> (#[trigger] members(rows, name)).len() == 0,
    decreases rows.len(),
{
    if rows.len() == 0 {
        reveal(Seq::filter);
    } else {
        let shorter = rows.drop_last();
        let last = rows.last();
        let earlier = group_names(shorter);
        let names = group_names(rows);
        lemma_group_names(shorter);
        assert(shorter.push(last) =~= rows);
        assert forall|i: int| 0 <= i < rows.len() implies names.contains(
            (#[trigger] rows[i]).name@,
        ) by {
            if i < shorter.len() {
                assert(shorter[i] == rows[i]);
                let at = choose|at: int| 0 <= at < earlier.len() && earlier[at] == rows[i].name@;
                assert(names[at] == rows[i].name@);
            } else {
                if earlier.contains(last.name@) {
                } else {
                    assert(names[names.len() - 1] == last.name@);
                }
            }
        }
        assert forall|g: int| 0 <= g < names.len() implies members(
            rows,
            #[trigger] names[g],
        ).len() > 0 by {
            lemma_members_push(shorter, last, names[g]);
            if g < earlier.len() {
                assert(names[g] == earlier[g]);
            }
        }
        assert forall|name: Seq<char>| !names.contains(name) implies (#[trigger] members(
            rows,
            name,
        )).len() == 0 by {
            lemma_members_push(shorter, last, name);
            if earlier.contains(name) {
                let at = choose|at: int| 0 <= at < earlier.len() && earlier[at] == name;
                assert(names[at] == name);
            }
            if last.name@ == name {
                if !earlier.contains(last.name@) {
                    assert(names[names.len() - 1] == name);
                }
            }
        }
    }
}

/// The sum that is kept after one more addend is the sum kept so far with
/// the addend added, held at the largest `u64`.
proof fn lemma_saturated_add(sum: int, addend: u64)
    requires
        sum >= 0,
    ensures
        saturated(sum + addend) == saturated(saturated(sum) + addend),
{
}

fn saturating_sum(kept: u64, addend: u64) -> (sum: u64)
    ensures
        sum == saturated(kept + addend),
{
    if kept > u64::MAX - addend {
        u64::MAX
    } else {
        kept + addend
    }
}

/// Usage is never negative, so neither is a sum of it.
proof fn lemma_totals_not_negative(rows: Seq<ProcessData>)
    ensures
        cpu_total(rows) >= 0,
        mem_total(rows) >= 0,
    decreases rows.len(),
{
    if rows.len() > 0 {
        lemma_totals_not_negative(rows.drop_last());
    }
}

/// A group taken up to the rows before `row` is, once `row` has joined it
/// or passed it by, the group taken up to `row`.
proof fn lemma_group_step(
    before: ProcessData,
    after: ProcessData,
    rows: Seq<ProcessData>,
    row: ProcessData,
    name: Seq<char>,
)
    requires
        is_group_of(before, rows, name),
        after.name@ == before.name@,
        after.pid == before.pid,
        after.pid_vec is Some,
        row.name@ == name ==> {
            &&& after.cpu_usage_percent == saturated(
                before.cpu_usage_percent + row.cpu_usage_percent,
            )
            &&& after.mem_usage_percent == saturated(
                before.mem_usage_percent + row.mem_usage_percent,
            )
            &&& after.pid_vec->0@ == before.pid_vec->0@.push(row.pid)
        },
        row.name@ != name ==> {
            &&& after.cpu_usage_percent == before.cpu_usage_percent
            &&& after.mem_usage_percent == before.mem_usage_percent
            &&& after.pid_vec->0@ == before.pid_vec->0@
        },
    ensures
        is_group_of(after, rows.push(row), name),
{
    let old_members = members(rows, name);
    lemma_members_push(rows, row, name);
    if row.name@ == name {
        let new_members = old_members.push(row);
        assert(new_members.drop_last() =~= old_members);
        assert(new_members[0] == old_members[0]);
        lemma_totals_not_negative(old_members);
        lemma_saturated_add(cpu_total(old_members), row.cpu_usage_percent);
        lemma_saturated_add(mem_total(old_members), row.mem_usage_percent);
        assert(pids_of(new_members) =~= pids_of(old_members).push(row.pid));
    }
}

/// Groups the rows of a process list by name.
///
/// Each group carries the name of its members, the id of the first of them,
/// the sum of their processor usage and of their memory usage, and the ids
/// of all of them. Groups stand in the order in which their names first
/// appear among `rows`.
pub fn group_processes(rows: &Vec<ProcessData>) -> (groups: Vec<ProcessData>)
    ensures
        is_grouping_of(groups@, rows@),
{
    let mut groups: Vec<ProcessData> = Vec::new();
    let mut i: usize = 0;
    while i < rows.len()
        invariant
            0 <= i <= rows@.len(),
            is_grouping_of(groups@, rows@.take(i as int)),
        decreases rows@.len() - i,
    {
        let row = &rows[i];
        let ghost seen = rows@.take(i as int);
        let ghost names = group_names(seen);
        proof {
            lemma_group_names(seen);
            assert(rows@.take(i + 1) =~= seen.push(*row));
            assert(seen.push(*row).drop_last() =~= seen);
        }
        let mut j: usize = 0;
        while j < groups.len() && !(groups[j].name == row.name)
            invariant
                0 <= j <= groups@.len(),
                groups@.len() == names.len(),
                forall|g: int| 0 <= g < groups@.len() ==> (#[trigger] groups@[g]).name@ == names[g],
                forall|g: int| 0 <= g < j ==> names[g] != row.name@,
            decreases groups@.len() - j,
        {
            j = j + 1;
        }
        let ghost old_groups = groups@;
        if j < groups.len() {
            let group = &mut groups[j];
            group.cpu_usage_percent = saturating_sum(
                group.cpu_usage_percent,
                row.cpu_usage_percent,
            );
            group.mem_usage_percent = saturating_sum(
                group.mem_usage_percent,
                row.mem_usage_percent,
            );
            match &mut group.pid_vec {
                Some(pids) => {
                    pids.push(row.pid);
                },
                None => {},
            }
            proof {
                assert(names.contains(row.name@));
                assert(group_names(seen.push(*row)) == names);
                assert forall|g: int| 0 <= g < groups@.len() implies is_group_of(
                    #[trigger] groups@[g],
                    seen.push(*row),
                    names[g],
                ) by {
                    if g != j {
                        assert(groups@[g] == old_groups[g]);
                        if names[g] == row.name@ {
                            assert(names[g] == names[j as int]);
                        }
                    }
                    lemma_group_step(old_groups[g], groups@[g], seen, *row, names[g]);
                }
            }
        } else {
            let mut pids: Vec<u32> = Vec::new();
            pids.push(row.pid);
            groups.push(
                ProcessData {
                    pid: row.pid,
                    cpu_usage_percent: row.cpu_usage_percent,
                    mem_usage_percent: row.mem_usage_percent,
                    name: row.name.clone(),
                    pid_vec: Some(pids),
                },
            );
            proof {
                if names.contains(row.name@) {
                    let at = choose|at: int| 0 <= at < names.len() && names[at] == row.name@;
                    assert(false);
                }
                let new_names = group_names(seen.push(*row));
                assert(new_names == names.push(row.name@));
                assert forall|g: int| 0 <= g < groups@.len() implies is_group_of(
                    #[trigger] groups@[g],
                    seen.push(*row),
                    new_names[g],
                ) by {
                    if g < old_groups.len() {
                        assert(groups@[g] == old_groups[g]);
                        lemma_group_step(old_groups[g], groups@[g], seen, *row, names[g]);
                    } else {
                        let joined = members(seen.push(*row), row.name@);
                        lemma_members_push(seen, *row, row.name@);
                        assert(members(seen, row.name@).len() == 0);
                        assert(joined =~= seq![*row]);
                        assert(joined.drop_last() =~= Seq::<ProcessData>::empty());
                        assert(cpu_total(joined) == row.cpu_usage_percent) by {
                            assert(cpu_total(joined.drop_last()) == 0);
                        }
                        assert(mem_total(joined) == row.mem_usage_percent) by {
                            assert(mem_total(joined.drop_last()) == 0);
                        }
                        assert(pids_of(joined) =~= seq![row.pid]);
                        assert(pids@ =~= seq![row.pid]);
                    }
                }
            }
        }
        i = i + 1;
    }
    proof {
        assert(rows@.take(rows@.len() as int) =~= rows@);
    }
    groups
}

} // verus!
