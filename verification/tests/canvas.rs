use bottom::canvas::graph::{cpu_graph_lines, GraphLine};
use bottom::canvas::labels::{
    cpu_legend_rows, memory_label, process_headers, to_whole_percent,
};
use bottom::canvas::screen::{
    choose_screen, cpu_chunk_percentages, kill_question, legend_and_graph_index,
    network_chunk_percentages, Screen,
};
use bottom::canvas::{update_canvas_data, CanvasData};
use bottom::data_collection::disks::{DiskData, IOData, IOPackage};
use bottom::data_collection::mem::MemData;
use bottom::data_collection::network::NetworkData;
use bottom::data_collection::processes::ProcessData;
use bottom::data_collection::rate::RateCounter;
use bottom::data_collection::temperature::{TempData, TemperatureType};
use bottom::data_collection::DataState;
use bottom::data_conversion::points::ConvertedCpuData;
use bottom::data_conversion::rows::{
    convert_process_data, find_io_entry, format_rate, get_io_rates, process_row, update_disk_row,
    update_temp_row,
};
use bottom::data_conversion::sorting::ProcessSorting;

fn io_entry(name: &str, read: u64, write: u64, instant: u64) -> IOData {
    IOData { mount_point: name.to_string(), read_bytes: read, write_bytes: write, instant }
}

fn io_history() -> Vec<IOPackage> {
    vec![
        IOPackage { io_list: vec![io_entry("sda", 0, 0, 0)], instant: 0 },
        IOPackage {
            io_list: vec![io_entry("sdb", 5, 5, 1000), io_entry("sda", 1000, 100, 1000)],
            instant: 1000,
        },
        IOPackage {
            io_list: vec![
                io_entry("sda", 4072, 50, 3000),
                io_entry("sda", 9999, 9999, 3000),
                io_entry("sdc", 1, 1, 3000),
            ],
            instant: 3000,
        },
    ]
}

#[test]
fn screens() {
    let mut show_dd = false;
    assert_eq!(choose_screen(true, &mut show_dd, true, Some(1)), Screen::Help);
    assert_eq!(choose_screen(false, &mut show_dd, true, Some(1)), Screen::Dashboard);
    assert!(!show_dd);

    let mut show_dd = true;
    assert_eq!(choose_screen(true, &mut show_dd, false, None), Screen::Help);
    assert!(show_dd);
    assert_eq!(choose_screen(false, &mut show_dd, true, None), Screen::KillError);
    assert!(show_dd);
    assert_eq!(choose_screen(false, &mut show_dd, false, Some(2)), Screen::KillConfirmation);
    assert!(show_dd);
    assert_eq!(choose_screen(false, &mut show_dd, false, Some(0)), Screen::Blank);
    assert!(!show_dd);

    let mut show_dd = true;
    assert_eq!(choose_screen(false, &mut show_dd, false, None), Screen::Blank);
    assert!(!show_dd);
    assert_eq!(choose_screen(false, &mut show_dd, false, None), Screen::Dashboard);
}

#[test]
fn kill_questions() {
    assert_eq!(
        kill_question(true, 3, "chrome", 42),
        "\nAre you sure you want to kill 3 process(es) with name chrome?"
    );
    assert_eq!(
        kill_question(false, 3, "chrome", 42),
        "\nAre you sure you want to kill process chrome with PID 42?"
    );
}

#[test]
fn panel_splits() {
    assert_eq!(cpu_chunk_percentages(true), (15, 85));
    assert_eq!(cpu_chunk_percentages(false), (85, 15));
    assert_eq!(network_chunk_percentages(true), (10, 90));
    assert_eq!(network_chunk_percentages(false), (75, 10));
    assert_eq!(legend_and_graph_index(true), (0, 1));
    assert_eq!(legend_and_graph_index(false), (1, 0));
}

#[test]
fn process_table_headers() {
    assert_eq!(
        process_headers(false, ProcessSorting::CPU, true),
        vec!["PID(p)", "Name(n)", "CPU%(c)⯆", "Mem%(m)"]
    );
    assert_eq!(
        process_headers(true, ProcessSorting::PID, false),
        vec!["Count⯅", "Name(n)", "CPU%(c)", "Mem%(m)"]
    );
    assert_eq!(
        process_headers(false, ProcessSorting::NAME, false),
        vec!["PID(p)", "Name(n)⯅", "CPU%(c)", "Mem%(m)"]
    );
    assert_eq!(
        process_headers(true, ProcessSorting::MEM, true),
        vec!["Count", "Name(n)", "CPU%(c)", "Mem%(m)⯆"]
    );
}

#[test]
fn whole_percent_rounds_to_the_nearest() {
    assert_eq!(to_whole_percent(0), 0);
    assert_eq!(to_whole_percent(49), 0);
    assert_eq!(to_whole_percent(50), 1);
    assert_eq!(to_whole_percent(1249), 12);
    assert_eq!(to_whole_percent(1250), 13);
    assert_eq!(to_whole_percent(10_000), 100);
    assert_eq!(to_whole_percent(u64::MAX), 184_467_440_737_095_516);
}

#[test]
fn processor_legend() {
    let line = |name: &str, points: Vec<(u64, u64)>| ConvertedCpuData {
        cpu_name: name.to_string(),
        cpu_data: points,
    };
    let lines = vec![
        line("avg", vec![(100, 1), (0, 4550)]),
        line("cpu0", Vec::new()),
        line("cpu1", vec![(0, 10_000)]),
        line("cpu2", vec![(0, 49)]),
    ];
    assert_eq!(
        cpu_legend_rows(&lines, 0),
        vec![vec!["avg", "46%"], vec!["cpu1", "100%"], vec!["cpu2", "0%"]]
    );
    assert_eq!(cpu_legend_rows(&lines, 1), vec![vec!["cpu1", "100%"], vec!["cpu2", "0%"]]);
    assert!(cpu_legend_rows(&lines, 4).is_empty());
}

#[test]
fn memory_labels() {
    assert_eq!(
        memory_label("RAM", 4550, 6_442_450_944, 17_179_869_184),
        "RAM: 46%   6.0GB/16.0GB"
    );
    assert_eq!(memory_label("SWP", 0, 0, 1_610_612_736), "SWP:  0%   0.0GB/1.5GB");
    assert_eq!(
        memory_label("RAM", 10_000, 1_073_741_823, 1_073_741_823),
        "RAM:100%   0.9GB/0.9GB"
    );
}

#[test]
fn processor_graph_lines() {
    let plain = cpu_graph_lines(3, false, 2);
    assert_eq!(
        plain,
        vec![
            GraphLine { line: 0, colour: 0 },
            GraphLine { line: 1, colour: 1 },
            GraphLine { line: 2, colour: 0 },
        ]
    );
    let with_average = cpu_graph_lines(4, true, 2);
    assert_eq!(
        with_average,
        vec![
            GraphLine { line: 1, colour: 0 },
            GraphLine { line: 2, colour: 1 },
            GraphLine { line: 3, colour: 0 },
            GraphLine { line: 0, colour: 1 },
        ]
    );
    assert_eq!(cpu_graph_lines(1, true, 5), vec![GraphLine { line: 0, colour: 0 }]);
    assert!(cpu_graph_lines(0, true, 5).is_empty());
    assert!(cpu_graph_lines(0, false, 5).is_empty());
}

#[test]
fn process_rows_as_text() {
    let rows = vec![
        ProcessData {
            pid: 12,
            cpu_usage_percent: 1234,
            mem_usage_percent: 5,
            name: "bash".to_string(),
            pid_vec: None,
        },
        ProcessData {
            pid: 40,
            cpu_usage_percent: 10_000,
            mem_usage_percent: 2550,
            name: "chrome".to_string(),
            pid_vec: Some(vec![40, 41, 42]),
        },
    ];
    let shown = convert_process_data(&rows);
    assert_eq!(shown.len(), 2);
    assert_eq!(shown[0].pid, 12);
    assert_eq!(shown[0].name, "bash");
    assert_eq!(shown[0].cpu_usage, "12.3%");
    assert_eq!(shown[0].mem_usage, "0.0%");
    assert!(shown[0].group.is_empty());
    assert_eq!(shown[1].group, vec![40, 41, 42]);
    assert_eq!(process_row(&shown[0], false), vec!["12", "bash", "12.3%", "0.0%"]);
    assert_eq!(process_row(&shown[1], true), vec!["3", "chrome", "100.0%", "25.5%"]);
    assert_eq!(process_row(&shown[1], false), vec!["40", "chrome", "100.0%", "25.5%"]);
}

#[test]
fn io_rates_between_the_last_two_entries() {
    let history = io_history();
    assert_eq!(find_io_entry(&history[2].io_list, &"sda".to_string()), Some(0));
    assert_eq!(find_io_entry(&history[2].io_list, &"sdc".to_string()), Some(2));
    assert_eq!(find_io_entry(&history[2].io_list, &"sdb".to_string()), None);
    // 3072 bytes read in two seconds; the counter of bytes written went backwards.
    assert_eq!(get_io_rates(&history, &"sda".to_string()), (1536, 0));
    // Known to one of the two entries only.
    assert_eq!(get_io_rates(&history, &"sdb".to_string()), (0, 0));
    assert_eq!(get_io_rates(&history, &"sdc".to_string()), (0, 0));
    assert_eq!(get_io_rates(&history[..1].to_vec(), &"sda".to_string()), (0, 0));
    assert_eq!(get_io_rates(&Vec::new(), &"sda".to_string()), (0, 0));
    assert_eq!(format_rate(1536), "1.5KiB/s");
}

#[test]
fn disk_rows_as_text() {
    let disks = vec![
        DiskData {
            name: "sda".to_string(),
            mount_point: "/".to_string(),
            free_space: 1024,
            used_space: 512,
            total_space: 1536,
        },
        DiskData {
            name: "sdz".to_string(),
            mount_point: "/mnt".to_string(),
            free_space: 0,
            used_space: 3_221_225_472,
            total_space: 3_221_225_472,
        },
    ];
    let rows = update_disk_row(&disks, &io_history());
    assert_eq!(
        rows,
        vec![
            vec!["sda", "/", "512B", "1.0KiB", "1.5KiB", "1.5KiB/s", "0B/s"],
            vec!["sdz", "/mnt", "3.0GiB", "0B", "3.0GiB", "0B/s", "0B/s"],
        ]
    );
}

#[test]
fn temperature_rows_as_text() {
    let sensor = |name: &str, temperature: i64, unit: TemperatureType| TempData {
        component_name: name.to_string(),
        temperature,
        unit,
    };
    let rows = update_temp_row(&vec![
        sensor("cpu", 4550, TemperatureType::Celsius),
        sensor("gpu", 31_865, TemperatureType::Kelvin),
        sensor("out", -499, TemperatureType::Fahrenheit),
        sensor("ice", -99, TemperatureType::Celsius),
        sensor("low", i64::MIN, TemperatureType::Celsius),
        sensor("nip", -100, TemperatureType::Celsius),
    ]);
    assert_eq!(
        rows,
        vec![
            vec!["cpu", "45C"],
            vec!["gpu", "318K"],
            vec!["out", "-4F"],
            vec!["ice", "0C"],
            vec!["low", "-92233720368547758C"],
            vec!["nip", "-1C"],
        ]
    );
}

#[test]
fn empty_canvas() {
    let canvas = CanvasData::default();
    assert!(canvas.rx_display.is_empty() && canvas.total_tx_display.is_empty());
    assert!(canvas.cpu_data.is_empty() && canvas.process_data.is_empty());
    assert!(canvas.mem_data.is_empty() && canvas.memory_labels.is_empty());
}

#[test]
fn canvas_shows_what_was_collected() {
    let mut state = DataState::default();
    state.prev_net_rx = RateCounter { seeded: true, value: 2048, instant: 900 };
    state.prev_net_tx = RateCounter { seeded: true, value: 10, instant: 900 };
    state.data.network = vec![
        NetworkData { rx: 1, tx: 2, instant: 100 },
        NetworkData { rx: 3072, tx: 4, instant: 900 },
    ];
    state.data.memory =
        vec![MemData { mem_total_in_bytes: 200, mem_used_in_bytes: 50, instant: 900 }];
    state.data.list_of_io = io_history();
    state.data.list_of_disks = vec![DiskData {
        name: "sda".to_string(),
        mount_point: "/".to_string(),
        free_space: 1,
        used_space: 2,
        total_space: 3,
    }];
    state.data.list_of_temperature_sensor = vec![TempData {
        component_name: "cpu".to_string(),
        temperature: 100,
        unit: TemperatureType::Celsius,
    }];
    state.data.list_of_processes = vec![ProcessData {
        pid: 1,
        cpu_usage_percent: 50,
        mem_usage_percent: 150,
        name: "init".to_string(),
        pid_vec: None,
    }];
    state.data.grouped_list_of_processes = Some(vec![ProcessData {
        pid: 1,
        cpu_usage_percent: 50,
        mem_usage_percent: 150,
        name: "init".to_string(),
        pid_vec: Some(vec![1]),
    }]);

    let canvas = update_canvas_data(&state, 1000, 500);
    assert_eq!(canvas.rx_display, "3.0KiB/s");
    assert_eq!(canvas.tx_display, "4B/s");
    assert_eq!(canvas.total_rx_display, "2.0KiB");
    assert_eq!(canvas.total_tx_display, "10B");
    assert_eq!(canvas.network_data_rx, vec![(100, 3072)]);
    assert_eq!(canvas.network_data_tx, vec![(100, 4)]);
    assert_eq!(canvas.mem_data, vec![(100, 2500)]);
    assert!(canvas.swap_data.is_empty());
    assert_eq!(canvas.memory_labels, vec![(50, 200)]);
    assert_eq!(canvas.disk_data, vec![vec!["sda", "/", "2B", "1B", "3B", "1.5KiB/s", "0B/s"]]);
    assert_eq!(canvas.temp_sensor_data, vec![vec!["cpu", "1C"]]);
    assert_eq!(canvas.process_data.len(), 1);
    assert_eq!(canvas.process_data[0].cpu_usage, "0.5%");
    assert_eq!(canvas.grouped_process_data.len(), 1);
    assert_eq!(canvas.grouped_process_data[0].group, vec![1]);
    assert!(canvas.cpu_data.is_empty());

    let nothing = update_canvas_data(&DataState::default(), 1000, 500);
    assert_eq!(nothing.rx_display, "0B/s");
    assert_eq!(nothing.total_rx_display, "0B");
    assert!(nothing.grouped_process_data.is_empty());
}
