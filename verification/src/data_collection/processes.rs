//! The process list.
//!
//! The system reports, for each process, the processor time it has used
//! since it started, in milliseconds. The share of a core that a process
//! uses is the rate at which that time grows. To compute it the engine
//! remembers, for each process id, the time last reported and when.
//!
//! Usage is in basis points: 10 000 is one whole core, or the whole machine
//! where usage is divided by the number of cores.

use vstd::prelude::*;
use std::collections::HashMap;
use crate::data_collection::SampleError;
use crate::data_collection::rate::{rate, scaled_rate, counter_delta};

verus! {

/// The number of basis points in a whole.
pub const BASIS_POINTS: u32 = 10_000;

/// One row of the process list.
#[derive(Clone, Debug)]
pub struct ProcessData {
    pub pid: u32,
    /// The processor usage, in basis points.
    pub cpu_usage_percent: u64,
    /// The share of the memory in use, in basis points.
    pub mem_usage_percent: u64,
    pub name: String,
    /// For a row that stands for a group of processes of one name, the ids
    /// of the processes in the group.
    pub pid_vec: Option<Vec<u32>>,
}

/// What was read of one process.
pub struct ProcessReading {
    pub pid: u32,
    pub name: String,
    /// The processor time used since the process started, in milliseconds.
    pub cpu_ticks_used: u64,
    pub mem_bytes: u64,
}

/// What was read of the processes, and of the machine they run on.
pub struct ProcessesReading {
    /// The time all cores together have been idle, in milliseconds.
    pub idle_ticks: u64,
    /// The time all cores together have been busy, in milliseconds.
    pub non_idle_ticks: u64,
    pub core_count: u32,
    pub total_memory: u64,
    pub processes: Vec<ProcessReading>,
}

/// What is remembered of the processor's time counters between two ticks.
#[derive(Clone, Copy, Debug, PartialEq, Eq, Structural)]
pub struct CpuTicks {
    /// Whether the counters have been observed.
    pub seeded: bool,
    pub idle: u64,
    pub non_idle: u64,
}

/// The share of `whole` that `part` is, in basis points and rounded down;
/// zero where `whole` is zero. Held at the largest `u64` where it would not
/// fit.
pub open spec fn share(part: int, whole: int) -> int {
    scaled_rate(0, 0, part, whole, 10_000)
}

/// The share of the time between two observations during which the
/// processor was busy, in basis points: of the time that has passed on all
/// cores, the part that was not idle. Zero at the first observation, and
/// where no time has passed.
pub open spec fn busy_share(prev: CpuTicks, idle: int, non_idle: int) -> int {
    if !prev.seeded {
        0
    } else {
        let total_delta = counter_delta(prev.idle + prev.non_idle, idle + non_idle);
        let idle_delta = counter_delta(prev.idle as int, idle);
        if total_delta == 0 {
            0
        } else {
            counter_delta(idle_delta, total_delta) * 10_000 / total_delta
        }
    }
}

/// The busy share is a share: between nothing and the whole.
pub proof fn lemma_busy_share_is_a_share(prev: CpuTicks, idle: int, non_idle: int)
    ensures
        0 <= busy_share(prev, idle, non_idle) <= 10_000,
{
    if prev.seeded {
        let total_delta = counter_delta(prev.idle + prev.non_idle, idle + non_idle);
        let idle_delta = counter_delta(prev.idle as int, idle);
        let busy = counter_delta(idle_delta, total_delta);
        if total_delta > 0 {
            assert(0 <= busy <= total_delta);
            assert(0 <= busy * 10_000 / total_delta <= 10_000) by (nonlinear_arith)
                requires
                    0 <= busy <= total_delta,
                    total_delta > 0,
            ;
        }
    }
}

/// Computes the share of the time since the last observation during which
/// the processor was busy, and remembers this observation in place of that
/// one.
pub fn cpu_usage_calculation(prev: &mut CpuTicks, idle: u64, non_idle: u64) -> (usage: u64)
    ensures
        usage == busy_share(*old(prev), idle as int, non_idle as int),
        usage <= 10_000,
        *final(prev) == (CpuTicks { seeded: true, idle, non_idle }),
{
    proof {
        lemma_busy_share_is_a_share(*prev, idle as int, non_idle as int);
    }
    let usage: u64 = if prev.seeded {
        let total: u128 = idle as u128 + non_idle as u128;
        let prev_total: u128 = prev.idle as u128 + prev.non_idle as u128;
        let total_delta: u128 = if total > prev_total {
            total - prev_total
        } else {
            0
        };
        let idle_delta: u128 = if idle > prev.idle {
            (idle - prev.idle) as u128
        } else {
            0
        };
        if total_delta == 0 {
            0
        } else {
            let busy: u128 = if total_delta > idle_delta {
                total_delta - idle_delta
            } else {
                0
            };
            assert(busy * 10_000 <= 0x2_0000_0000_0000_0000 * 10_000) by (nonlinear_arith)
                requires
                    busy <= 0x2_0000_0000_0000_0000,
            ;
            (busy * 10_000 / total_delta) as u64
        }
    } else {
        0
    };
    prev.seeded = true;
    prev.idle = idle;
    prev.non_idle = non_idle;
    usage
}

/// The processor usage of a process that has used `cpu_ticks_used`
/// milliseconds of processor time by `instant`.
///
/// It is the rate at which that time has grown since the process was last
/// seen, as a share of one core, and zero for a process seen for the first
/// time. With `use_current_cpu_total` the rate is divided by the number of
/// cores, and is then a share of the whole machine.
pub open spec fn process_cpu_usage(
    table: Map<u32, (u64, u64)>,
    pid: u32,
    cpu_ticks_used: u64,
    instant: u64,
    core_count: u32,
    use_current_cpu_total: bool,
) -> int {
    let of_one_core = if table.contains_key(pid) {
        scaled_rate(
            table[pid].0 as int,
            table[pid].1 as int,
            cpu_ticks_used as int,
            instant as int,
            10_000,
        )
    } else {
        0
    };
    if use_current_cpu_total && core_count > 0 {
        of_one_core / core_count as int
    } else {
        of_one_core
    }
}

/// What is remembered of the processes after `readings`, taken at `instant`,
/// have been seen one after another: for each of them its processor time
/// and `instant`, and for every other process what was remembered before.
pub open spec fn table_after(
    table: Map<u32, (u64, u64)>,
    readings: Seq<ProcessReading>,
    instant: u64,
) -> Map<u32, (u64, u64)>
    decreases readings.len(),
{
    if readings.len() == 0 {
        table
    } else {
        table_after(table, readings.drop_last(), instant).insert(
            readings.last().pid,
            (readings.last().cpu_ticks_used, instant),
        )
    }
}

/// Whether `row` is the row of the process read as `reading` at `instant`,
/// given what was remembered of the processes before it.
pub open spec fn is_process_row_of(
    row: ProcessData,
    reading: ProcessReading,
    table: Map<u32, (u64, u64)>,
    instant: u64,
    core_count: u32,
    total_memory: u64,
    use_current_cpu_total: bool,
) -> bool {
    &&& row.pid == reading.pid
    &&& row.name@ == reading.name@
    &&& row.pid_vec is None
    &&& row.cpu_usage_percent == process_cpu_usage(
        table,
        reading.pid,
        reading.cpu_ticks_used,
        instant,
        core_count,
        use_current_cpu_total,
    )
    &&& row.mem_usage_percent == share(reading.mem_bytes as int, total_memory as int)
}

/// Whether `rows` is the process list read as `reading` at `instant`: row by
/// row and in the order read, each computed from what was remembered after
/// the rows before it.
pub open spec fn is_process_list_of(
    rows: Seq<ProcessData>,
    reading: ProcessesReading,
    table: Map<u32, (u64, u64)>,
    instant: u64,
    use_current_cpu_total: bool,
) -> bool {
    &&& rows.len() == reading.processes@.len()
    &&& forall|i: int|
        0 <= i < rows.len() ==> is_process_row_of(
            #[trigger] rows[i],
            reading.processes@[i],
            table_after(table, reading.processes@.take(i), instant),
            instant,
            reading.core_count,
            reading.total_memory,
            use_current_cpu_total,
        )
}

/// A process that is in a list of readings is remembered after them with
/// the instant of the reading.
pub proof fn lemma_table_after_remembers(
    table: Map<u32, (u64, u64)>,
    readings: Seq<ProcessReading>,
    instant: u64,
    pid: u32,
)
    ensures
        table_after(table, readings, instant).contains_key(pid) <==> table.contains_key(pid) || (
        exists|i: int| 0 <= i < readings.len() && (#[trigger] readings[i]).pid == pid),
        (exists|i: int| 0 <= i < readings.len() && (#[trigger] readings[i]).pid == pid)
            ==> table_after(table, readings, instant)[pid].1 == instant,
        !(exists|i: int| 0 <= i < readings.len() && (#[trigger] readings[i]).pid == pid)
            && table.contains_key(pid) ==> table_after(table, readings, instant)[pid]
            == table[pid],
    decreases readings.len(),
{
    if readings.len() > 0 {
        let shorter = readings.drop_last();
        lemma_table_after_remembers(table, shorter, instant, pid);
        if exists|i: int| 0 <= i < shorter.len() && (#[trigger] shorter[i]).pid == pid {
            let i = choose|i: int| 0 <= i < shorter.len() && (#[trigger] shorter[i]).pid == pid;
            assert(readings[i].pid == pid);
        }
        if exists|i: int| 0 <= i < readings.len() && (#[trigger] readings[i]).pid == pid {
            let i = choose|i: int| 0 <= i < readings.len() && (#[trigger] readings[i]).pid == pid;
            if i < shorter.len() {
                assert(shorter[i].pid == pid);
            }
        }
    }
}

/// Turns a reading of the processes into the process list, and remembers
/// each process's processor time for the next tick.
///
/// Also observes the processor's time counters and returns, beside the
/// list, the share of the time since the last tick during which the
/// processor was busy. A failed read stays the failure it was and leaves
/// what is remembered untouched.
pub fn get_process_list(
    reading: Result<ProcessesReading, SampleError>,
    prev_cpu: &mut CpuTicks,
    prev_pid_stats: &mut HashMap<u32, (u64, u64)>,
    use_current_cpu_total: bool,
    curr_time: u64,
) -> (result: Result<(Vec<ProcessData>, u64), SampleError>)
    ensures
        match reading {
            Ok(reading) => {
                &&& result is Ok
                &&& is_process_list_of(
                    result->Ok_0.0@,
                    reading,
                    old(prev_pid_stats)@,
                    curr_time,
                    use_current_cpu_total,
                )
                &&& result->Ok_0.1 == busy_share(
                    *old(prev_cpu),
                    reading.idle_ticks as int,
                    reading.non_idle_ticks as int,
                )
                &&& final(prev_pid_stats)@ == table_after(
                    old(prev_pid_stats)@,
                    reading.processes@,
                    curr_time,
                )
                &&& *final(prev_cpu) == (CpuTicks {
                    seeded: true,
                    idle: reading.idle_ticks,
                    non_idle: reading.non_idle_ticks,
                })
            },
            Err(e) => {
                &&& result == Err::<(Vec<ProcessData>, u64), SampleError>(e)
                &&& final(prev_pid_stats)@ == old(prev_pid_stats)@
                &&& *final(prev_cpu) == *old(prev_cpu)
            },
        },
{
    broadcast use vstd::std_specs::hash::group_hash_axioms;

    match reading {
        Ok(reading) => {
            let cpu_usage: u64 = cpu_usage_calculation(
                prev_cpu,
                reading.idle_ticks,
                reading.non_idle_ticks,
            );
            let core_count: u32 = reading.core_count;
            let total_memory: u64 = reading.total_memory;
            let ghost readings = reading.processes@;
            let ghost table = prev_pid_stats@;
            let mut process_vector: Vec<ProcessData> = Vec::new();
            for process in it: reading.processes.into_iter()
                invariant
                    it.seq() == readings,
                    process_vector@.len() == it.index(),
                    prev_pid_stats@ == table_after(table, readings.take(it.index() as int), curr_time),
                    forall|i: int|
                        0 <= i < it.index() ==> is_process_row_of(
                            #[trigger] process_vector@[i],
                            readings[i],
                            table_after(table, readings.take(i), curr_time),
                            curr_time,
                            core_count,
                            total_memory,
                            use_current_cpu_total,
                        ),
            {
                let of_one_core: u64 = match prev_pid_stats.get(&process.pid) {
                    Some(seen) => rate(seen.0, seen.1, process.cpu_ticks_used, curr_time, BASIS_POINTS),
                    None => 0,
                };
                let cpu_usage_percent: u64 = if use_current_cpu_total && core_count > 0 {
                    of_one_core / (core_count as u64)
                } else {
                    of_one_core
                };
                let mem_usage_percent: u64 = rate(0, 0, process.mem_bytes, total_memory, BASIS_POINTS);
                prev_pid_stats.insert(process.pid, (process.cpu_ticks_used, curr_time));
                proof {
                    let longer = readings.take(it.index() + 1);
                    assert(longer.drop_last() =~= readings.take(it.index() as int));
                    assert(longer.last() == process);
                }
                process_vector.push(
                    ProcessData {
                        pid: process.pid,
                        cpu_usage_percent,
                        mem_usage_percent,
                        name: process.name,
                        pid_vec: None,
                    },
                );
            }
            proof {
                assert(readings.take(readings.len() as int) =~= readings);
            }
            Ok((process_vector, cpu_usage))
        },
        Err(e) => Err(e),
    }
}

} // verus!
