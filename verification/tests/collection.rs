use bottom::data_collection::cpu::{get_cpu_data_list, CPUData};
use bottom::data_collection::disks::{
    get_disk_usage_list, get_io_usage_list, DiskReading, IOReading,
};
use bottom::data_collection::mem::{get_mem_data_list, get_swap_data_list, MemData, MemReading};
use bottom::data_collection::network::{get_network_data, NetworkData, NetworkReading};
use bottom::data_collection::processes::{
    get_process_list, CpuTicks, ProcessReading, ProcessesReading,
};
use bottom::data_collection::rate::RateCounter;
use bottom::data_collection::retention::{is_stale, retain_fresh, retain_fresh_processes};
use bottom::data_collection::temperature::{
    convert_temperature, get_temperature_data, TempReading, TemperatureType,
};
use bottom::data_collection::SampleError;
use std::collections::HashMap;

fn io(name: Option<&str>, read: u64, write: u64) -> Result<IOReading, SampleError> {
    Ok(IOReading { device_name: name.map(|n| n.to_string()), read_bytes: read, write_bytes: write })
}

#[test]
fn io_list_keeps_every_device_in_order() {
    let list = get_io_usage_list(vec![io(Some("sda"), 1, 2), io(None, 3, 4)], 77).unwrap();
    assert_eq!(list.len(), 2);
    assert_eq!(list[0].mount_point, "sda");
    assert_eq!((list[0].read_bytes, list[0].write_bytes, list[0].instant), (1, 2, 77));
    assert_eq!(list[1].mount_point, "Name Unavailable");
    assert_eq!((list[1].read_bytes, list[1].write_bytes, list[1].instant), (3, 4, 77));
    assert!(get_io_usage_list(Vec::new(), 1).unwrap().is_empty());
}

#[test]
fn io_list_fails_with_the_first_failure() {
    let result = get_io_usage_list(
        vec![
            io(Some("sda"), 1, 2),
            Err(SampleError::TimedOut),
            io(Some("sdb"), 1, 2),
            Err(SampleError::Unavailable),
        ],
        77,
    );
    assert_eq!(result.err(), Some(SampleError::TimedOut));
}

#[test]
fn disk_list_keeps_every_partition_in_order() {
    let list = get_disk_usage_list(vec![
        Ok(DiskReading {
            device: Some("/dev/sda1".to_string()),
            mount_point: Some("/".to_string()),
            free_space: 1,
            used_space: 2,
            total_space: 3,
        }),
        Ok(DiskReading {
            device: None,
            mount_point: None,
            free_space: 4,
            used_space: 5,
            total_space: 9,
        }),
    ])
    .unwrap();
    assert_eq!(list.len(), 2);
    assert_eq!(list[0].name, "/dev/sda1");
    assert_eq!(list[0].mount_point, "/");
    assert_eq!((list[0].free_space, list[0].used_space, list[0].total_space), (1, 2, 3));
    assert_eq!(list[1].name, "Name Unavailable");
    assert_eq!(list[1].mount_point, "Name Unavailable");
    assert_eq!((list[1].free_space, list[1].used_space, list[1].total_space), (4, 5, 9));
}

#[test]
fn disk_list_fails_with_the_first_failure() {
    let result = get_disk_usage_list(vec![
        Err(SampleError::Unavailable),
        Err(SampleError::TimedOut),
    ]);
    assert_eq!(result.err(), Some(SampleError::Unavailable));
}

#[test]
fn memory_is_stamped() {
    let reading = MemReading { used_bytes: 5, total_bytes: 9 };
    assert_eq!(
        get_mem_data_list(Ok(reading), 12),
        Ok(MemData { mem_total_in_bytes: 9, mem_used_in_bytes: 5, instant: 12 })
    );
    assert_eq!(
        get_swap_data_list(Ok(reading), 13),
        Ok(MemData { mem_total_in_bytes: 9, mem_used_in_bytes: 5, instant: 13 })
    );
    assert_eq!(get_mem_data_list(Err(SampleError::TimedOut), 12), Err(SampleError::TimedOut));
    assert_eq!(get_swap_data_list(Err(SampleError::Unavailable), 12), Err(SampleError::Unavailable));
}

#[test]
fn cpu_list_is_stamped() {
    let package = get_cpu_data_list(
        Ok(vec![CPUData { cpu_name: "cpu0".to_string(), cpu_usage: 1234 }]),
        99,
    )
    .unwrap();
    assert_eq!(package.instant, 99);
    assert_eq!(package.cpu_vec.len(), 1);
    assert_eq!(package.cpu_vec[0].cpu_name, "cpu0");
    assert_eq!(package.cpu_vec[0].cpu_usage, 1234);
    assert_eq!(get_cpu_data_list(Err(SampleError::TimedOut), 99).err(), Some(SampleError::TimedOut));
}

#[test]
fn network_data_is_the_rate_between_two_readings() {
    let mut rx = RateCounter::new();
    let mut tx = RateCounter::new();
    let first = get_network_data(
        Ok(NetworkReading { rx_bytes: 10_000, tx_bytes: 2000 }),
        &mut rx,
        &mut tx,
        1000,
    );
    assert_eq!(first, Ok(NetworkData { rx: 0, tx: 0, instant: 1000 }));
    let failed = get_network_data(Err(SampleError::Unavailable), &mut rx, &mut tx, 2000);
    assert_eq!(failed, Err(SampleError::Unavailable));
    assert_eq!(rx, RateCounter { seeded: true, value: 10_000, instant: 1000 });
    let second = get_network_data(
        Ok(NetworkReading { rx_bytes: 16_000, tx_bytes: 1000 }),
        &mut rx,
        &mut tx,
        3000,
    );
    // 6000 bytes in two seconds; the counter of bytes sent was reset.
    assert_eq!(second, Ok(NetworkData { rx: 3000, tx: 0, instant: 3000 }));
    assert_eq!(tx, RateCounter { seeded: true, value: 1000, instant: 3000 });
}

#[test]
fn temperature_conversion() {
    assert_eq!(convert_temperature(2550, TemperatureType::Celsius), 2550);
    assert_eq!(convert_temperature(2550, TemperatureType::Kelvin), 29_865);
    assert_eq!(convert_temperature(2550, TemperatureType::Fahrenheit), 7790);
    assert_eq!(convert_temperature(0, TemperatureType::Fahrenheit), 3200);
    assert_eq!(convert_temperature(-1000, TemperatureType::Fahrenheit), 1400);
    assert_eq!(convert_temperature(-1001, TemperatureType::Fahrenheit), 1399);
    assert_eq!(convert_temperature(-4000, TemperatureType::Fahrenheit), -4000);
    assert_eq!(convert_temperature(-27_315, TemperatureType::Kelvin), 0);
    assert_eq!(convert_temperature(i32::MAX, TemperatureType::Fahrenheit), 3_865_473_764);
    assert_eq!(convert_temperature(i32::MIN, TemperatureType::Fahrenheit), -3_865_467_366);
}

#[test]
fn temperature_list_is_converted_sensor_by_sensor() {
    let sensors = get_temperature_data(
        Ok(vec![
            TempReading { component_name: "a".to_string(), celsius: 100 },
            TempReading { component_name: "b".to_string(), celsius: -100 },
        ]),
        &TemperatureType::Kelvin,
    )
    .unwrap();
    assert_eq!(sensors.len(), 2);
    assert_eq!(sensors[0].component_name, "a");
    assert_eq!(sensors[0].temperature, 27_415);
    assert_eq!(sensors[0].unit, TemperatureType::Kelvin);
    assert_eq!(sensors[1].component_name, "b");
    assert_eq!(sensors[1].temperature, 27_215);
    assert_eq!(
        get_temperature_data(Err(SampleError::TimedOut), &TemperatureType::Kelvin).err(),
        Some(SampleError::TimedOut)
    );
}

#[test]
fn process_list_failure_leaves_what_is_remembered() {
    let mut prev_cpu = CpuTicks { seeded: true, idle: 5, non_idle: 6 };
    let mut table: HashMap<u32, (u64, u64)> = HashMap::new();
    table.insert(3, (30, 300));
    let result = get_process_list(Err(SampleError::TimedOut), &mut prev_cpu, &mut table, false, 900);
    assert_eq!(result.err(), Some(SampleError::TimedOut));
    assert_eq!(prev_cpu, CpuTicks { seeded: true, idle: 5, non_idle: 6 });
    assert_eq!(table.len(), 1);
    assert_eq!(table.get(&3), Some(&(30, 300)));
}

#[test]
fn process_list_compares_with_what_is_remembered() {
    let mut prev_cpu = CpuTicks { seeded: true, idle: 100, non_idle: 100 };
    let mut table: HashMap<u32, (u64, u64)> = HashMap::new();
    table.insert(3, (30, 300));
    table.insert(4, (40, 300));
    let reading = ProcessesReading {
        idle_ticks: 150,
        non_idle_ticks: 150,
        core_count: 2,
        total_memory: 1000,
        processes: vec![
            ProcessReading { pid: 3, name: "three".to_string(), cpu_ticks_used: 90, mem_bytes: 1 },
            ProcessReading { pid: 5, name: "five".to_string(), cpu_ticks_used: 77, mem_bytes: 2000 },
        ],
    };
    let (rows, usage) = get_process_list(Ok(reading), &mut prev_cpu, &mut table, true, 900).unwrap();
    assert_eq!(usage, 5000);
    assert_eq!(rows.len(), 2);
    // 60 ms in 600 ms is a tenth of a core, a twentieth of two.
    assert_eq!(rows[0].cpu_usage_percent, 500);
    assert_eq!(rows[0].mem_usage_percent, 10);
    assert_eq!(rows[1].cpu_usage_percent, 0);
    assert_eq!(rows[1].mem_usage_percent, 20_000);
    assert_eq!(table.len(), 3);
    assert_eq!(table.get(&3), Some(&(90, 900)));
    assert_eq!(table.get(&4), Some(&(40, 300)));
    assert_eq!(table.get(&5), Some(&(77, 900)));
}

#[test]
fn staleness_is_measured_in_milliseconds() {
    assert!(!is_stale(0, 60_000, 60));
    assert!(is_stale(0, 60_001, 60));
    assert!(!is_stale(5000, 1000, 60));
    assert!(is_stale(0, 1, 0));
    assert!(!is_stale(7, 7, 0));
    assert!(!is_stale(0, u64::MAX, u64::MAX));
}

#[test]
fn retain_fresh_keeps_the_order_of_what_stays() {
    let mut history = vec![
        MemData { mem_total_in_bytes: 1, mem_used_in_bytes: 1, instant: 5000 },
        MemData { mem_total_in_bytes: 2, mem_used_in_bytes: 1, instant: 100 },
        MemData { mem_total_in_bytes: 3, mem_used_in_bytes: 1, instant: 9000 },
        MemData { mem_total_in_bytes: 4, mem_used_in_bytes: 1, instant: 4000 },
        MemData { mem_total_in_bytes: 5, mem_used_in_bytes: 1, instant: 20_000 },
    ];
    retain_fresh(&mut history, 10_000, 5);
    let kept: Vec<u64> = history.iter().map(|entry| entry.mem_total_in_bytes).collect();
    assert_eq!(kept, vec![1, 3, 5]);
}

#[test]
fn retain_fresh_processes_forgets_the_stale() {
    let mut table: HashMap<u32, (u64, u64)> = HashMap::new();
    table.insert(1, (10, 100));
    table.insert(2, (20, 5000));
    table.insert(3, (30, 4999));
    table.insert(4, (40, 12_000));
    retain_fresh_processes(&mut table, 10_000, 5);
    assert_eq!(table.len(), 2);
    assert_eq!(table.get(&2), Some(&(20, 5000)));
    assert_eq!(table.get(&4), Some(&(40, 12_000)));
}
