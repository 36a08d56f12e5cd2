use bottom::data_collection::cpu::CPUData;
use bottom::data_collection::disks::{DiskReading, IOPackage, IOReading};
use bottom::data_collection::mem::{MemData, MemReading};
use bottom::data_collection::network::{NetworkData, NetworkReading};
use bottom::data_collection::processes::{CpuTicks, ProcessReading, ProcessesReading};
use bottom::data_collection::rate::RateCounter;
use bottom::data_collection::temperature::{TempReading, TemperatureType};
use bottom::data_collection::{
    push_if_valid, set_if_valid, Data, DataState, Readings, SampleError, Samples,
};

fn process(pid: u32, name: &str, ticks: u64, mem: u64) -> ProcessReading {
    ProcessReading { pid, name: name.to_string(), cpu_ticks_used: ticks, mem_bytes: mem }
}

fn full_readings(step: u64) -> Readings {
    Readings {
        network: Ok(NetworkReading { rx_bytes: 1000 * step, tx_bytes: 500 * step }),
        cpu: Ok(vec![
            CPUData { cpu_name: "cpu0".to_string(), cpu_usage: 100 * step },
            CPUData { cpu_name: "cpu1".to_string(), cpu_usage: 200 * step },
        ]),
        memory: Ok(MemReading { used_bytes: 10 * step, total_bytes: 100 }),
        swap: Ok(MemReading { used_bytes: step, total_bytes: 50 }),
        processes: Ok(ProcessesReading {
            idle_ticks: 1000 * step,
            non_idle_ticks: 3000 * step,
            core_count: 4,
            total_memory: 4096,
            processes: vec![process(7, "seven", 500 * step, 1024), process(8, "eight", 0, 4096)],
        }),
        disks: vec![Ok(DiskReading {
            device: Some("/dev/sda1".to_string()),
            mount_point: Some("/".to_string()),
            free_space: 60,
            used_space: 40 + step,
            total_space: 100,
        })],
        io: vec![Ok(IOReading {
            device_name: Some("sda1".to_string()),
            read_bytes: 100 * step,
            write_bytes: 10 * step,
        })],
        physical_io: vec![Ok(IOReading {
            device_name: Some("sda".to_string()),
            read_bytes: 200 * step,
            write_bytes: 20 * step,
        })],
        temperatures: Ok(vec![TempReading { component_name: "core".to_string(), celsius: 4000 }]),
    }
}

#[test]
fn new_engine_has_seen_nothing() {
    let state = DataState::default();
    assert!(state.first_run);
    assert_eq!(state.stale_max_seconds, 60);
    assert_eq!(state.last_clean, 0);
    assert!(state.prev_pid_stats.is_empty());
    assert_eq!(state.prev_net_rx, RateCounter { seeded: false, value: 0, instant: 0 });
    assert_eq!(state.prev_net_tx, RateCounter { seeded: false, value: 0, instant: 0 });
    assert_eq!(state.prev_cpu, CpuTicks { seeded: false, idle: 0, non_idle: 0 });
    assert_eq!(state.total_cpu_usage, 0);
    assert!(!state.use_current_cpu_total);
    assert_eq!(state.temperature_type, TemperatureType::Celsius);
    assert!(state.data.network.is_empty());
    assert!(state.data.list_of_disks.is_empty());
    assert!(state.data.grouped_list_of_processes.is_none());
    let other = DataState::new(5);
    assert_eq!(other.stale_max_seconds, 5);
    assert_eq!(other.prev_net_rx, RateCounter { seeded: false, value: 0, instant: 0 });
    assert_eq!(other.prev_cpu, CpuTicks { seeded: false, idle: 0, non_idle: 0 });
    let data = Data::default();
    assert!(data.list_of_cpu_packages.is_empty() && data.memory.is_empty());
}

#[test]
fn set_if_valid_replaces_only_on_success() {
    let mut value = 1;
    set_if_valid::<i32, SampleError>(Err(SampleError::Unavailable), &mut value);
    assert_eq!(value, 1);
    set_if_valid::<i32, SampleError>(Ok(2), &mut value);
    assert_eq!(value, 2);
}

#[test]
fn push_if_valid_appends_only_on_success() {
    let mut history = vec![1];
    push_if_valid::<i32, SampleError>(Err(SampleError::TimedOut), &mut history);
    assert_eq!(history, vec![1]);
    push_if_valid::<i32, SampleError>(Ok(2), &mut history);
    assert_eq!(history, vec![1, 2]);
}

#[test]
fn first_full_tick_starts_every_history_afresh() {
    let mut state = DataState::default();
    // Something collected before the first tick without a failure.
    let mut partial = full_readings(1);
    partial.swap = Err(SampleError::Unavailable);
    state.update_data(partial, 1000);
    assert!(state.first_run);
    assert_eq!(state.data.network.len(), 1);
    assert_eq!(state.data.swap.len(), 0);
    assert_eq!(state.data.memory.len(), 1);
    state.data.grouped_list_of_processes = Some(Vec::new());

    state.update_data(full_readings(2), 2000);
    assert!(!state.first_run);
    assert_eq!(state.data.network, vec![NetworkData { rx: 1000, tx: 500, instant: 2000 }]);
    assert_eq!(
        state.data.memory,
        vec![MemData { mem_total_in_bytes: 100, mem_used_in_bytes: 20, instant: 2000 }]
    );
    assert_eq!(
        state.data.swap,
        vec![MemData { mem_total_in_bytes: 50, mem_used_in_bytes: 2, instant: 2000 }]
    );
    assert_eq!(state.data.list_of_cpu_packages.len(), 1);
    assert_eq!(state.data.list_of_cpu_packages[0].instant, 2000);
    assert_eq!(state.data.list_of_cpu_packages[0].cpu_vec[1].cpu_usage, 400);
    assert_eq!(state.data.list_of_io.len(), 1);
    assert_eq!(state.data.list_of_io[0].instant, 2000);
    assert_eq!(state.data.list_of_io[0].io_list[0].read_bytes, 200);
    assert_eq!(state.data.list_of_physical_io.len(), 1);
    assert_eq!(state.data.list_of_physical_io[0].io_list[0].mount_point, "sda");
    assert!(state.data.grouped_list_of_processes.is_none());

    // The next tick adds to what the first full tick left.
    state.update_data(full_readings(3), 3000);
    assert_eq!(state.data.network.len(), 2);
    assert_eq!(state.data.list_of_io.len(), 2);
}

#[test]
fn failed_read_adds_nothing_to_a_history() {
    let mut state = DataState::default();
    state.update_data(full_readings(1), 1000);
    let mut readings = full_readings(2);
    readings.network = Err(SampleError::TimedOut);
    readings.cpu = Err(SampleError::Unavailable);
    readings.io = vec![Err(SampleError::Unavailable)];
    state.update_data(readings, 2000);
    assert_eq!(state.data.network.len(), 1);
    assert_eq!(state.data.list_of_cpu_packages.len(), 1);
    assert_eq!(state.data.list_of_io.len(), 1);
    assert_eq!(state.data.memory.len(), 2);
    assert_eq!(state.data.list_of_physical_io.len(), 2);
    // The network counters were not observed.
    assert_eq!(state.prev_net_rx, RateCounter { seeded: true, value: 1000, instant: 1000 });
}

#[test]
fn failed_read_keeps_the_snapshot() {
    let mut state = DataState::default();
    state.update_data(full_readings(1), 1000);
    assert_eq!(state.data.list_of_disks.len(), 1);
    assert_eq!(state.data.list_of_disks[0].used_space, 41);

    let mut readings = full_readings(2);
    readings.disks = vec![
        Ok(DiskReading {
            device: None,
            mount_point: None,
            free_space: 1,
            used_space: 1,
            total_space: 2,
        }),
        Err(SampleError::Unavailable),
    ];
    readings.processes = Err(SampleError::Unavailable);
    readings.temperatures = Err(SampleError::TimedOut);
    state.update_data(readings, 2000);
    assert_eq!(state.data.list_of_disks.len(), 1);
    assert_eq!(state.data.list_of_disks[0].name, "/dev/sda1");
    assert_eq!(state.data.list_of_disks[0].mount_point, "/");
    assert_eq!(state.data.list_of_disks[0].used_space, 41);
    assert_eq!(state.data.list_of_processes.len(), 2);
    assert_eq!(state.data.list_of_processes[0].name, "seven");
    assert_eq!(state.data.list_of_temperature_sensor.len(), 1);
    assert_eq!(state.data.list_of_temperature_sensor[0].temperature, 4000);
    // Nothing was observed of the processes.
    assert_eq!(state.prev_cpu, CpuTicks { seeded: true, idle: 1000, non_idle: 3000 });
    assert_eq!(state.prev_pid_stats.get(&7), Some(&(500, 1000)));

    state.update_data(full_readings(3), 3000);
    assert_eq!(state.data.list_of_disks[0].used_space, 43);
}

#[test]
fn network_entries_hold_rates() {
    let mut state = DataState::default();
    state.update_data(full_readings(1), 1000);
    // The first observation has nothing to be compared with.
    assert_eq!(state.data.network, vec![NetworkData { rx: 0, tx: 0, instant: 1000 }]);
    state.update_data(full_readings(3), 1500);
    assert_eq!(state.data.network[1], NetworkData { rx: 4000, tx: 2000, instant: 1500 });
    assert_eq!(state.prev_net_tx, RateCounter { seeded: true, value: 1500, instant: 1500 });
}

#[test]
fn warm_up_observes_counters_and_collects_nothing() {
    let mut state = DataState::default();
    state.init(full_readings(1), 1000);
    assert!(state.first_run);
    assert!(state.data.network.is_empty());
    assert!(state.data.list_of_processes.is_empty());
    assert!(state.data.list_of_disks.is_empty());
    assert_eq!(state.prev_net_rx, RateCounter { seeded: true, value: 1000, instant: 1000 });
    assert_eq!(state.prev_pid_stats.get(&7), Some(&(500, 1000)));

    state.update_data(full_readings(2), 2000);
    assert_eq!(state.data.network, vec![NetworkData { rx: 1000, tx: 500, instant: 2000 }]);
    assert_eq!(state.data.list_of_processes[0].cpu_usage_percent, 5000);
}

#[test]
fn process_rows_hold_usage() {
    let mut state = DataState::default();
    state.update_data(full_readings(1), 1000);
    let rows = &state.data.list_of_processes;
    assert_eq!(rows.len(), 2);
    assert_eq!(rows[0].pid, 7);
    assert_eq!(rows[0].name, "seven");
    assert_eq!(rows[0].cpu_usage_percent, 0);
    assert_eq!(rows[0].mem_usage_percent, 2500);
    assert!(rows[0].pid_vec.is_none());
    assert_eq!(rows[1].mem_usage_percent, 10_000);
    assert_eq!(state.total_cpu_usage, 0);

    state.update_data(full_readings(2), 2000);
    // 500 ms of processor time in 1000 ms: half a core.
    assert_eq!(state.data.list_of_processes[0].cpu_usage_percent, 5000);
    assert_eq!(state.data.list_of_processes[1].cpu_usage_percent, 0);
    // 3000 of 4000 ticks were busy.
    assert_eq!(state.total_cpu_usage, 7500);

    state.set_use_current_cpu_total(true);
    assert!(state.use_current_cpu_total);
    state.update_data(full_readings(3), 3000);
    // Half a core of four.
    assert_eq!(state.data.list_of_processes[0].cpu_usage_percent, 1250);
}

#[test]
fn process_seen_twice_in_one_reading_is_compared_with_itself() {
    let mut state = DataState::default();
    let mut readings = full_readings(1);
    readings.processes = Ok(ProcessesReading {
        idle_ticks: 0,
        non_idle_ticks: 0,
        core_count: 0,
        total_memory: 0,
        processes: vec![process(1, "a", 100, 5), process(1, "a", 900, 5)],
    });
    state.update_data(readings, 1000);
    let rows = &state.data.list_of_processes;
    assert_eq!(rows[0].cpu_usage_percent, 0);
    // Seen a moment ago at the same instant: no time has passed.
    assert_eq!(rows[1].cpu_usage_percent, 0);
    assert_eq!(rows[1].mem_usage_percent, 0);
    assert_eq!(state.prev_pid_stats.get(&1), Some(&(900, 1000)));
}

#[test]
fn temperatures_are_shown_in_the_unit_chosen() {
    let mut state = DataState::default();
    state.set_temperature_type(TemperatureType::Fahrenheit);
    assert_eq!(state.temperature_type, TemperatureType::Fahrenheit);
    state.update_data(full_readings(1), 1000);
    let sensors = &state.data.list_of_temperature_sensor;
    assert_eq!(sensors.len(), 1);
    assert_eq!(sensors[0].component_name, "core");
    assert_eq!(sensors[0].temperature, 10_400);
    assert_eq!(sensors[0].unit, TemperatureType::Fahrenheit);
}

#[test]
fn sweep_drops_what_is_stale() {
    let mut state = DataState::default();
    state.update_data(full_readings(1), 1000);
    state.update_data(full_readings(2), 30_000);
    assert_eq!(state.data.network.len(), 2);
    assert_eq!(state.last_clean, 0);

    // Exactly at the window nothing is swept.
    state.update_data(full_readings(3), 60_000);
    assert_eq!(state.data.network.len(), 3);
    assert_eq!(state.last_clean, 0);

    let mut readings = full_readings(4);
    readings.processes = Ok(ProcessesReading {
        idle_ticks: 4000,
        non_idle_ticks: 12_000,
        core_count: 4,
        total_memory: 4096,
        processes: vec![process(8, "eight", 0, 4096)],
    });
    state.update_data(readings, 61_001);
    assert_eq!(state.last_clean, 61_001);
    let instants: Vec<u64> = state.data.network.iter().map(|entry| entry.instant).collect();
    assert_eq!(instants, vec![30_000, 60_000, 61_001]);
    assert_eq!(state.data.memory.len(), 3);
    assert_eq!(state.data.swap.len(), 3);
    assert_eq!(state.data.list_of_cpu_packages.len(), 3);
    assert_eq!(state.data.list_of_io.len(), 3);
    assert_eq!(state.data.list_of_physical_io.len(), 3);
    for entry in &state.data.list_of_io {
        assert!(61_001 - entry.instant <= 60_000);
    }
    // Process 7 was last seen at 60 000: not stale yet.
    assert_eq!(state.prev_pid_stats.get(&7), Some(&(1500, 60_000)));
    assert_eq!(state.prev_pid_stats.get(&8), Some(&(0, 61_001)));

    // No sweep is due until the window has passed again.
    let mut readings = full_readings(5);
    readings.processes = Err(SampleError::Unavailable);
    state.update_data(readings, 121_001);
    assert_eq!(state.last_clean, 61_001);
    assert_eq!(state.data.network.len(), 4);

    let mut readings = full_readings(6);
    readings.processes = Err(SampleError::Unavailable);
    state.update_data(readings, 121_002);
    assert_eq!(state.last_clean, 121_002);
    let instants: Vec<u64> = state.data.network.iter().map(|entry| entry.instant).collect();
    // The entry of 61 001 is one millisecond older than the window allows.
    assert_eq!(instants, vec![121_001, 121_002]);
    // Neither process has been seen within the window.
    assert_eq!(state.prev_pid_stats.get(&7), None);
    assert_eq!(state.prev_pid_stats.get(&8), None);
}

#[test]
fn merge_takes_finished_samples() {
    let mut state = DataState::new(10);
    state.first_run = false;
    state.data.network.push(NetworkData { rx: 1, tx: 1, instant: 500 });
    let samples = Samples {
        network: Ok(NetworkData { rx: 2, tx: 2, instant: 900 }),
        cpu: Err(SampleError::Unavailable),
        memory: Err(SampleError::Unavailable),
        swap: Err(SampleError::Unavailable),
        processes: Err(SampleError::Unavailable),
        disks: Ok(Vec::new()),
        io: Ok(IOPackage { io_list: Vec::new(), instant: 100 }),
        physical_io: Err(SampleError::Unavailable),
        temperatures: Err(SampleError::Unavailable),
    };
    assert!(!samples.is_all_valid());
    // A sweep is due: even the entry just merged goes if it is stale.
    state.merge(samples, 10_600);
    assert_eq!(state.data.network, vec![NetworkData { rx: 2, tx: 2, instant: 900 }]);
    assert!(state.data.list_of_io.is_empty());
    assert_eq!(state.last_clean, 10_600);
}

#[test]
fn sample_takes_samples_and_leaves_the_data() {
    let mut state = DataState::default();
    let samples = state.sample(full_readings(1), 1000);
    assert!(samples.is_all_valid());
    assert!(state.data.network.is_empty());
    assert_eq!(samples.network, Ok(NetworkData { rx: 0, tx: 0, instant: 1000 }));
    assert_eq!(samples.io.as_ref().map(|package| package.instant), Ok(1000));
    assert!(state.prev_net_rx.seeded);
}
