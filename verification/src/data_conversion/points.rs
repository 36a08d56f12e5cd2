//! Chart points.
//!
//! A history is drawn as a line of points: how long before now an entry was
//! taken, and the value it holds. Only the entries inside the time window of
//! the chart are drawn, which is as a rule shorter than the staleness
//! window.

use vstd::prelude::*;
use crate::data_collection::cpu::CPUPackage;
use crate::data_collection::mem::MemData;
use crate::data_collection::network::NetworkData;
use crate::data_collection::processes::share;
use crate::data_collection::rate::{elapsed, rate};

verus! {

/// Whether an entry taken at `instant` is drawn at `now` in a chart that
/// reaches `time_window` milliseconds back.
pub open spec fn in_window(instant: u64, now: u64, time_window: u64) -> bool {
    elapsed(instant as int, now as int) <= time_window
}

/// The points of a history: for each entry that `keep` lets through, in
/// their order, what `point` makes of it.
pub open spec fn points_of<T>(
    history: Seq<T>,
    keep: spec_fn(T) -> bool,
    point: spec_fn(T) -> (u64, u64),
) -> Seq<(u64, u64)> {
    history.filter(keep).map_values(point)
}

/// The points of a history with one more entry: one more point if the
/// entry is kept.
pub proof fn lemma_points_push<T>(
    history: Seq<T>,
    entry: T,
    keep: spec_fn(T) -> bool,
    point: spec_fn(T) -> (u64, u64),
)
    ensures
        points_of(history.push(entry), keep, point) == if keep(entry) {
            points_of(history, keep, point).push(point(entry))
        } else {
            points_of(history, keep, point)
        },
{
    reveal(Seq::filter);
    assert(history.push(entry).drop_last() =~= history);
    if keep(entry) {
        assert(history.filter(keep).push(entry).map_values(point) =~= history.filter(
            keep,
        ).map_values(point).push(point(entry)));
    }
}

/// No history, no points.
pub proof fn lemma_points_of_nothing<T>(keep: spec_fn(T) -> bool, point: spec_fn(T) -> (u64, u64))
    ensures
        points_of(Seq::<T>::empty(), keep, point) == Seq::<(u64, u64)>::empty(),
{
    reveal(Seq::filter);
    assert(Seq::<T>::empty().filter(keep).map_values(point) =~= Seq::<(u64, u64)>::empty());
}

/// Tells how long before `now` the instant `instant` was: zero for an
/// instant that is yet to come.
pub fn elapsed_before(instant: u64, now: u64) -> (e: u64)
    ensures
        e == elapsed(instant as int, now as int),
{
    if now > instant {
        now - instant
    } else {
        0
    }
}

/// The point of an entry of the memory history: when it was taken, and the
/// share of the memory in use, in basis points.
pub open spec fn mem_point(entry: MemData, now: u64) -> (u64, u64) {
    (
        elapsed(entry.instant as int, now as int) as u64,
        share(entry.mem_used_in_bytes as int, entry.mem_total_in_bytes as int) as u64,
    )
}

/// The points of the memory history, or of the swap history, that are drawn
/// at `now`.
pub fn convert_mem_data(mem_data: &Vec<MemData>, now: u64, time_window: u64) -> (points: Vec<
    (u64, u64),
>)
    ensures
        points@ == points_of(
            mem_data@,
            |entry: MemData| in_window(entry.instant, now, time_window),
            |entry: MemData| mem_point(entry, now),
        ),
{
    let ghost keep = |entry: MemData| in_window(entry.instant, now, time_window);
    let ghost point = |entry: MemData| mem_point(entry, now);
    let mut points: Vec<(u64, u64)> = Vec::new();
    proof {
        lemma_points_of_nothing(keep, point);
        assert(mem_data@.take(0) =~= Seq::<MemData>::empty());
    }
    let mut i: usize = 0;
    while i < mem_data.len()
        invariant
            0 <= i <= mem_data@.len(),
            forall|entry: MemData| #[trigger] keep(entry) == in_window(entry.instant, now, time_window),
            forall|entry: MemData| #[trigger] point(entry) == mem_point(entry, now),
            points@ == points_of(mem_data@.take(i as int), keep, point),
        decreases mem_data@.len() - i,
    {
        let entry = mem_data[i];
        let before: u64 = elapsed_before(entry.instant, now);
        proof {
            assert(mem_data@.take(i + 1) =~= mem_data@.take(i as int).push(entry));
            lemma_points_push(mem_data@.take(i as int), entry, keep, point);
        }
        if before <= time_window {
            let used: u64 = rate(0, 0, entry.mem_used_in_bytes, entry.mem_total_in_bytes, 10_000);
            points.push((before, used));
        }
        i = i + 1;
    }
    proof {
        assert(mem_data@.take(mem_data@.len() as int) =~= mem_data@);
    }
    points
}

/// The point of an entry of the network history for the bytes received.
pub open spec fn rx_point(entry: NetworkData, now: u64) -> (u64, u64) {
    (elapsed(entry.instant as int, now as int) as u64, entry.rx)
}

/// The point of an entry of the network history for the bytes sent.
pub open spec fn tx_point(entry: NetworkData, now: u64) -> (u64, u64) {
    (elapsed(entry.instant as int, now as int) as u64, entry.tx)
}

/// The points of the network history that are drawn at `now`: those of the
/// bytes received, and those of the bytes sent.
pub fn convert_network_data_points(network: &Vec<NetworkData>, now: u64, time_window: u64) -> (
    points: (Vec<(u64, u64)>, Vec<(u64, u64)>))
    ensures
        points.0@ == points_of(
            network@,
            |entry: NetworkData| in_window(entry.instant, now, time_window),
            |entry: NetworkData| rx_point(entry, now),
        ),
        points.1@ == points_of(
            network@,
            |entry: NetworkData| in_window(entry.instant, now, time_window),
            |entry: NetworkData| tx_point(entry, now),
        ),
{
    let ghost keep = |entry: NetworkData| in_window(entry.instant, now, time_window);
    let ghost point_rx = |entry: NetworkData| rx_point(entry, now);
    let ghost point_tx = |entry: NetworkData| tx_point(entry, now);
    let mut rx: Vec<(u64, u64)> = Vec::new();
    let mut tx: Vec<(u64, u64)> = Vec::new();
    proof {
        lemma_points_of_nothing(keep, point_rx);
        lemma_points_of_nothing(keep, point_tx);
        assert(network@.take(0) =~= Seq::<NetworkData>::empty());
    }
    let mut i: usize = 0;
    while i < network.len()
        invariant
            0 <= i <= network@.len(),
            forall|entry: NetworkData| #[trigger]
                keep(entry) == in_window(entry.instant, now, time_window),
            forall|entry: NetworkData| #[trigger] point_rx(entry) == rx_point(entry, now),
            forall|entry: NetworkData| #[trigger] point_tx(entry) == tx_point(entry, now),
            rx@ == points_of(network@.take(i as int), keep, point_rx),
            tx@ == points_of(network@.take(i as int), keep, point_tx),
        decreases network@.len() - i,
    {
        let entry = network[i];
        let before: u64 = elapsed_before(entry.instant, now);
        proof {
            assert(network@.take(i + 1) =~= network@.take(i as int).push(entry));
            lemma_points_push(network@.take(i as int), entry, keep, point_rx);
            lemma_points_push(network@.take(i as int), entry, keep, point_tx);
        }
        if before <= time_window {
            rx.push((before, entry.rx));
            tx.push((before, entry.tx));
        }
        i = i + 1;
    }
    proof {
        assert(network@.take(network@.len() as int) =~= network@);
    }
    (rx, tx)
}

/// The line of one core in the processor chart.
#[derive(Clone, Debug)]
pub struct ConvertedCpuData {
    pub cpu_name: String,
    pub cpu_data: Vec<(u64, u64)>,
}

/// Whether an entry of the processor history gives a point for core `core`
/// at `now`: it is inside the time window and knows of the core.
pub open spec fn has_core_point(entry: CPUPackage, core: int, now: u64, time_window: u64) -> bool {
    in_window(entry.instant, now, time_window) && core < entry.cpu_vec@.len()
}

/// The point of an entry of the processor history for core `core`: when it
/// was taken, and the usage of the core in basis points.
pub open spec fn core_point(entry: CPUPackage, core: int, now: u64) -> (u64, u64) {
    (elapsed(entry.instant as int, now as int) as u64, entry.cpu_vec@[core].cpu_usage)
}

/// Whether `lines` are the lines of the processor chart at `now`: one for
/// each core of the latest entry, under the core's name, with a point for
/// each entry that is inside the time window and knows of the core.
pub open spec fn is_cpu_chart_of(
    lines: Seq<ConvertedCpuData>,
    history: Seq<CPUPackage>,
    now: u64,
    time_window: u64,
) -> bool {
    &&& history.len() == 0 ==> lines.len() == 0
    &&& history.len() > 0 ==> lines.len() == history.last().cpu_vec@.len()
    &&& forall|core: int|
        0 <= core < lines.len() ==> {
            &&& (#[trigger] lines[core]).cpu_name@ == history.last().cpu_vec@[core].cpu_name@
            &&& lines[core].cpu_data@ == points_of(
                history,
                |entry: CPUPackage| has_core_point(entry, core, now, time_window),
                |entry: CPUPackage| core_point(entry, core, now),
            )
        }
}

/// The lines of the processor chart at `now`.
pub fn update_cpu_data_points(history: &Vec<CPUPackage>, now: u64, time_window: u64) -> (lines:
    Vec<ConvertedCpuData>)
    ensures
        is_cpu_chart_of(lines@, history@, now, time_window),
{
    let mut lines: Vec<ConvertedCpuData> = Vec::new();
    if history.len() == 0 {
        return lines;
    }
    let latest = &history[history.len() - 1];
    let mut core: usize = 0;
    while core < latest.cpu_vec.len()
        invariant
            history@.len() > 0,
            *latest == history@.last(),
            0 <= core <= latest.cpu_vec@.len(),
            lines@.len() == core,
            forall|c: int|
                0 <= c < core ==> {
                    &&& (#[trigger] lines@[c]).cpu_name@ == latest.cpu_vec@[c].cpu_name@
                    &&& lines@[c].cpu_data@ == points_of(
                        history@,
                        |entry: CPUPackage| has_core_point(entry, c, now, time_window),
                        |entry: CPUPackage| core_point(entry, c, now),
                    )
                },
        decreases latest.cpu_vec@.len() - core,
    {
        let ghost keep = |entry: CPUPackage| has_core_point(entry, core as int, now, time_window);
        let ghost point = |entry: CPUPackage| core_point(entry, core as int, now);
        let mut cpu_data: Vec<(u64, u64)> = Vec::new();
        proof {
            lemma_points_of_nothing(keep, point);
            assert(history@.take(0) =~= Seq::<CPUPackage>::empty());
        }
        let mut i: usize = 0;
        while i < history.len()
            invariant
                0 <= i <= history@.len(),
                forall|entry: CPUPackage| #[trigger]
                    keep(entry) == has_core_point(entry, core as int, now, time_window),
                forall|entry: CPUPackage| #[trigger]
                    point(entry) == core_point(entry, core as int, now),
                cpu_data@ == points_of(history@.take(i as int), keep, point),
            decreases history@.len() - i,
        {
            let entry = &history[i];
            let before: u64 = elapsed_before(entry.instant, now);
            proof {
                assert(history@.take(i + 1) =~= history@.take(i as int).push(*entry));
                lemma_points_push(history@.take(i as int), *entry, keep, point);
            }
            if before <= time_window && core < entry.cpu_vec.len() {
                cpu_data.push((before, entry.cpu_vec[core].cpu_usage));
            }
            i = i + 1;
        }
        proof {
            assert(history@.take(history@.len() as int) =~= history@);
        }
        lines.push(ConvertedCpuData { cpu_name: latest.cpu_vec[core].cpu_name.clone(), cpu_data });
        core = core + 1;
    }
    lines
}

} // verus!
