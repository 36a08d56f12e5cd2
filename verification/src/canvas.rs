//! What the dashboard shows and where: the data in the form in which it is
//! drawn, column widths, scroll windows and what each table draws of its
//! rows.

use vstd::prelude::*;
use crate::data_collection::DataState;
use crate::data_collection::mem::MemData;
use crate::data_collection::network::NetworkData;
use crate::data_collection::processes::ProcessData;
use crate::data_conversion::format::{bytes_text, format_bytes};
use crate::data_conversion::points::{
    ConvertedCpuData, convert_mem_data, convert_network_data_points, in_window, is_cpu_chart_of,
    mem_point, points_of, rx_point, tx_point, update_cpu_data_points,
};
use crate::data_conversion::rows::{
    ConvertedProcessData, convert_process_data, disk_cells, format_rate, is_shown_process,
    rate_text, temp_cells, update_disk_row, update_temp_row,
};

pub mod graph;
pub mod labels;
pub mod screen;
pub mod scroll;
pub mod table;
pub mod widths;

verus! {

/// The collected data in the form in which it is drawn.
#[derive(Clone, Debug)]
pub struct CanvasData {
    pub rx_display: String,
    pub tx_display: String,
    pub total_rx_display: String,
    pub total_tx_display: String,
    pub network_data_rx: Vec<(u64, u64)>,
    pub network_data_tx: Vec<(u64, u64)>,
    pub disk_data: Vec<Vec<String>>,
    pub temp_sensor_data: Vec<Vec<String>>,
    pub process_data: Vec<ConvertedProcessData>,
    pub grouped_process_data: Vec<ConvertedProcessData>,
    pub memory_labels: Vec<(u64, u64)>,
    pub mem_data: Vec<(u64, u64)>,
    pub swap_data: Vec<(u64, u64)>,
    pub cpu_data: Vec<ConvertedCpuData>,
}

impl Default for CanvasData {
    fn default() -> (canvas: CanvasData)
        ensures
            canvas.rx_display@.len() == 0,
            canvas.tx_display@.len() == 0,
            canvas.total_rx_display@.len() == 0,
            canvas.total_tx_display@.len() == 0,
            canvas.network_data_rx@.len() == 0,
            canvas.network_data_tx@.len() == 0,
            canvas.disk_data@.len() == 0,
            canvas.temp_sensor_data@.len() == 0,
            canvas.process_data@.len() == 0,
            canvas.grouped_process_data@.len() == 0,
            canvas.memory_labels@.len() == 0,
            canvas.mem_data@.len() == 0,
            canvas.swap_data@.len() == 0,
            canvas.cpu_data@.len() == 0,
    {
        CanvasData {
            rx_display: String::new(),
            tx_display: String::new(),
            total_rx_display: String::new(),
            total_tx_display: String::new(),
            network_data_rx: Vec::new(),
            network_data_tx: Vec::new(),
            disk_data: Vec::new(),
            temp_sensor_data: Vec::new(),
            process_data: Vec::new(),
            grouped_process_data: Vec::new(),
            memory_labels: Vec::new(),
            mem_data: Vec::new(),
            swap_data: Vec::new(),
            cpu_data: Vec::new(),
        }
    }
}

/// The latest throughput of a network history as picked by `side`: zero
/// while the history is empty.
pub open spec fn latest_throughput(network: Seq<NetworkData>, side: spec_fn(NetworkData) -> u64) -> u64 {
    if network.len() == 0 {
        0
    } else {
        side(network.last())
    }
}

/// The amounts in use and in all of the latest entry of the memory history,
/// followed by those of the swap history; a history without entries gives
/// none.
pub open spec fn memory_amounts(memory: Seq<MemData>, swap: Seq<MemData>) -> Seq<(u64, u64)> {
    (if memory.len() > 0 {
        seq![(memory.last().mem_used_in_bytes, memory.last().mem_total_in_bytes)]
    } else {
        Seq::empty()
    }) + (if swap.len() > 0 {
        seq![(swap.last().mem_used_in_bytes, swap.last().mem_total_in_bytes)]
    } else {
        Seq::empty()
    })
}

/// The rows that stand for the groups of the process list: none while the
/// list is not grouped.
pub open spec fn grouped_rows(grouped: Option<Vec<ProcessData>>) -> Seq<ProcessData> {
    match grouped {
        Some(rows) => rows@,
        None => Seq::empty(),
    }
}

/// Whether `canvas` shows what `state` has collected, as seen at `now` in
/// charts that reach `time_window` milliseconds back.
pub open spec fn is_canvas_of(
    canvas: CanvasData,
    state: DataState,
    now: u64,
    time_window: u64,
) -> bool {
    let data = state.data;
    &&& canvas.rx_display@ == rate_text(
        latest_throughput(data.network@, |entry: NetworkData| entry.rx) as nat,
    )
    &&& canvas.tx_display@ == rate_text(
        latest_throughput(data.network@, |entry: NetworkData| entry.tx) as nat,
    )
    &&& canvas.total_rx_display@ == bytes_text(state.prev_net_rx.value as nat)
    &&& canvas.total_tx_display@ == bytes_text(state.prev_net_tx.value as nat)
    &&& canvas.network_data_rx@ == points_of(
        data.network@,
        |entry: NetworkData| in_window(entry.instant, now, time_window),
        |entry: NetworkData| rx_point(entry, now),
    )
    &&& canvas.network_data_tx@ == points_of(
        data.network@,
        |entry: NetworkData| in_window(entry.instant, now, time_window),
        |entry: NetworkData| tx_point(entry, now),
    )
    &&& canvas.disk_data@.len() == data.list_of_disks@.len()
    &&& forall|d: int|
        0 <= d < canvas.disk_data@.len() ==> {
            &&& (#[trigger] canvas.disk_data@[d])@.len() == 7
            &&& forall|c: int|
                0 <= c < 7 ==> (#[trigger] canvas.disk_data@[d]@[c])@ == disk_cells(
                    data.list_of_disks@[d],
                    data.list_of_io@,
                )[c]
        }
    &&& canvas.temp_sensor_data@.len() == data.list_of_temperature_sensor@.len()
    &&& forall|s: int|
        0 <= s < canvas.temp_sensor_data@.len() ==> {
            &&& (#[trigger] canvas.temp_sensor_data@[s])@.len() == 2
            &&& forall|c: int|
                0 <= c < 2 ==> (#[trigger] canvas.temp_sensor_data@[s]@[c])@ == temp_cells(
                    data.list_of_temperature_sensor@[s],
                )[c]
        }
    &&& canvas.process_data@.len() == data.list_of_processes@.len()
    &&& forall|i: int|
        0 <= i < canvas.process_data@.len() ==> is_shown_process(
            #[trigger] canvas.process_data@[i],
            data.list_of_processes@[i],
        )
    &&& canvas.grouped_process_data@.len() == grouped_rows(data.grouped_list_of_processes).len()
    &&& forall|i: int|
        0 <= i < canvas.grouped_process_data@.len() ==> is_shown_process(
            #[trigger] canvas.grouped_process_data@[i],
            grouped_rows(data.grouped_list_of_processes)[i],
        )
    &&& canvas.memory_labels@ == memory_amounts(data.memory@, data.swap@)
    &&& canvas.mem_data@ == points_of(
        data.memory@,
        |entry: MemData| in_window(entry.instant, now, time_window),
        |entry: MemData| mem_point(entry, now),
    )
    &&& canvas.swap_data@ == points_of(
        data.swap@,
        |entry: MemData| in_window(entry.instant, now, time_window),
        |entry: MemData| mem_point(entry, now),
    )
    &&& is_cpu_chart_of(canvas.cpu_data@, data.list_of_cpu_packages@, now, time_window)
}

/// Turns what the engine has collected into what is drawn at `now`, in
/// charts that reach `time_window` milliseconds back.
pub fn update_canvas_data(state: &DataState, now: u64, time_window: u64) -> (canvas: CanvasData)
    ensures
        is_canvas_of(canvas, *state, now, time_window),
{
    let data = &state.data;
    let (rx, tx): (u64, u64) = if data.network.len() == 0 {
        (0, 0)
    } else {
        let latest = data.network[data.network.len() - 1];
        (latest.rx, latest.tx)
    };
    let (network_data_rx, network_data_tx) = convert_network_data_points(
        &data.network,
        now,
        time_window,
    );
    let mut memory_labels: Vec<(u64, u64)> = Vec::new();
    if data.memory.len() > 0 {
        let latest = data.memory[data.memory.len() - 1];
        memory_labels.push((latest.mem_used_in_bytes, latest.mem_total_in_bytes));
    }
    if data.swap.len() > 0 {
        let latest = data.swap[data.swap.len() - 1];
        memory_labels.push((latest.mem_used_in_bytes, latest.mem_total_in_bytes));
    }
    assert(memory_labels@ =~= memory_amounts(data.memory@, data.swap@));
    let grouped_process_data = match &data.grouped_list_of_processes {
        Some(rows) => convert_process_data(rows),
        None => Vec::new(),
    };
    CanvasData {
        rx_display: format_rate(rx),
        tx_display: format_rate(tx),
        total_rx_display: format_bytes(state.prev_net_rx.value),
        total_tx_display: format_bytes(state.prev_net_tx.value),
        network_data_rx,
        network_data_tx,
        disk_data: update_disk_row(&data.list_of_disks, &data.list_of_io),
        temp_sensor_data: update_temp_row(&data.list_of_temperature_sensor),
        process_data: convert_process_data(&data.list_of_processes),
        grouped_process_data,
        memory_labels,
        mem_data: convert_mem_data(&data.memory, now, time_window),
        swap_data: convert_mem_data(&data.swap, now, time_window),
        cpu_data: update_cpu_data_points(&data.list_of_cpu_packages, now, time_window),
    }
}

} // verus!
