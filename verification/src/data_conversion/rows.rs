//! Table rows as text.

use vstd::prelude::*;
use vstd::string::StringExecFns;
use crate::data_collection::disks::{DiskData, IOData, IOPackage};
use crate::data_collection::processes::ProcessData;
use crate::data_collection::rate::{rate, scaled_rate};
use crate::data_collection::temperature::{TempData, TemperatureType};
use crate::data_conversion::format::{
    bytes_text, decimal, format_bytes, format_percent, percent_text, push_decimal, to_decimal,
};

verus! {

/// A row of the process table as it is shown.
#[derive(Clone, Debug)]
pub struct ConvertedProcessData {
    pub pid: u32,
    pub name: String,
    pub cpu_usage: String,
    pub mem_usage: String,
    /// The ids of the processes that the row stands for, where it stands for
    /// a group.
    pub group: Vec<u32>,
}

/// The ids of the processes that a row stands for: none for a row that
/// stands for itself.
pub open spec fn group_of(row: ProcessData) -> Seq<u32> {
    match row.pid_vec {
        Some(pids) => pids@,
        None => Seq::empty(),
    }
}

/// Whether `shown` is how `row` is shown: usage in percent with one digit
/// behind the point.
pub open spec fn is_shown_process(shown: ConvertedProcessData, row: ProcessData) -> bool {
    &&& shown.pid == row.pid
    &&& shown.name@ == row.name@
    &&& shown.cpu_usage@ == percent_text(row.cpu_usage_percent as nat)
    &&& shown.mem_usage@ == percent_text(row.mem_usage_percent as nat)
    &&& shown.group@ == group_of(row)
}

fn copy_pids(pids: &Vec<u32>) -> (copy: Vec<u32>)
    ensures
        copy@ == pids@,
{
    let mut copy: Vec<u32> = Vec::new();
    let mut i: usize = 0;
    while i < pids.len()
        invariant
            0 <= i <= pids@.len(),
            copy@ == pids@.take(i as int),
        decreases pids@.len() - i,
    {
        copy.push(pids[i]);
        proof {
            assert(pids@.take(i + 1) =~= pids@.take(i as int).push(pids@[i as int]));
        }
        i = i + 1;
    }
    proof {
        assert(pids@.take(pids@.len() as int) =~= pids@);
    }
    copy
}

/// Turns the rows of the process list into the rows that are shown, one
/// for one and in their order.
pub fn convert_process_data(rows: &Vec<ProcessData>) -> (shown: Vec<ConvertedProcessData>)
    ensures
        shown@.len() == rows@.len(),
        forall|i: int| 0 <= i < rows@.len() ==> is_shown_process(#[trigger] shown@[i], rows@[i]),
{
    let mut shown: Vec<ConvertedProcessData> = Vec::new();
    let mut i: usize = 0;
    while i < rows.len()
        invariant
            0 <= i <= rows@.len(),
            shown@.len() == i,
            forall|k: int| 0 <= k < i ==> is_shown_process(#[trigger] shown@[k], rows@[k]),
        decreases rows@.len() - i,
    {
        let row = &rows[i];
        let group: Vec<u32> = match &row.pid_vec {
            Some(pids) => copy_pids(pids),
            None => Vec::new(),
        };
        assert(group@ =~= group_of(*row));
        shown.push(
            ConvertedProcessData {
                pid: row.pid,
                name: row.name.clone(),
                cpu_usage: format_percent(row.cpu_usage_percent),
                mem_usage: format_percent(row.mem_usage_percent),
                group,
            },
        );
        i = i + 1;
    }
    shown
}

/// The cells of a row of the process table: the number of processes in the
/// group where the list is grouped, else the process id; then name,
/// processor usage and memory usage.
pub open spec fn process_cells(process: ConvertedProcessData, grouped: bool) -> Seq<Seq<char>> {
    seq![
        if grouped {
            decimal(process.group@.len())
        } else {
            decimal(process.pid as nat)
        },
        process.name@,
        process.cpu_usage@,
        process.mem_usage@,
    ]
}

/// Writes the cells of a row of the process table.
pub fn process_row(process: &ConvertedProcessData, grouped: bool) -> (cells: Vec<String>)
    ensures
        cells@.len() == 4,
        forall|i: int|
            0 <= i < 4 ==> (#[trigger] cells@[i])@ == process_cells(*process, grouped)[i],
{
    let first = if grouped {
        to_decimal(process.group.len() as u64)
    } else {
        to_decimal(process.pid as u64)
    };
    let mut cells: Vec<String> = Vec::new();
    cells.push(first);
    cells.push(process.name.clone());
    cells.push(process.cpu_usage.clone());
    cells.push(process.mem_usage.clone());
    cells
}

/// Finds the first entry for the device `name`.
pub fn find_io_entry(entries: &Vec<IOData>, name: &String) -> (found: Option<usize>)
    ensures
        match found {
            Some(i) => {
                &&& i < entries@.len()
                &&& entries@[i as int].mount_point@ == name@
                &&& forall|j: int| 0 <= j < i ==> (#[trigger] entries@[j]).mount_point@ != name@
            },
            None => forall|j: int|
                0 <= j < entries@.len() ==> (#[trigger] entries@[j]).mount_point@ != name@,
        },
{
    let mut i: usize = 0;
    while i < entries.len()
        invariant
            0 <= i <= entries@.len(),
            forall|j: int| 0 <= j < i ==> (#[trigger] entries@[j]).mount_point@ != name@,
        decreases entries@.len() - i,
    {
        if entries[i].mount_point == *name {
            return Some(i);
        }
        i = i + 1;
    }
    None
}

/// A number of bytes per second, written like a number of bytes.
pub open spec fn rate_text(bytes_per_second: nat) -> Seq<char> {
    bytes_text(bytes_per_second) + "/s"@
}

/// The rate, in bytes per second, at which `counter` has grown for the
/// device `name` between the last two entries of the I/O history. It is
/// zero while the history has no two entries, and where one of the two does
/// not know the device.
pub open spec fn io_rate(
    list_of_io: Seq<IOPackage>,
    name: Seq<char>,
    counter: spec_fn(IOData) -> u64,
) -> int {
    if list_of_io.len() < 2 {
        0
    } else {
        let before = list_of_io[list_of_io.len() - 2];
        let latest = list_of_io[list_of_io.len() - 1];
        if (exists|i: int| is_first_for(before.io_list@, name, i)) && (exists|i: int|
            is_first_for(latest.io_list@, name, i)) {
            let i = choose|i: int| is_first_for(before.io_list@, name, i);
            let j = choose|j: int| is_first_for(latest.io_list@, name, j);
            scaled_rate(
                counter(before.io_list@[i]) as int,
                before.instant as int,
                counter(latest.io_list@[j]) as int,
                latest.instant as int,
                1000,
            )
        } else {
            0
        }
    }
}

/// Whether entry `i` is the first entry of `entries` for the device `name`.
pub open spec fn is_first_for(entries: Seq<IOData>, name: Seq<char>, i: int) -> bool {
    &&& 0 <= i < entries.len()
    &&& entries[i].mount_point@ == name
    &&& forall|j: int| 0 <= j < i ==> (#[trigger] entries[j]).mount_point@ != name
}

/// There is at most one first entry for a device.
pub proof fn lemma_first_for_is_unique(entries: Seq<IOData>, name: Seq<char>, i: int, j: int)
    requires
        is_first_for(entries, name, i),
        is_first_for(entries, name, j),
    ensures
        i == j,
{
    if i < j {
        assert(entries[i].mount_point@ != name);
    }
    if j < i {
        assert(entries[j].mount_point@ != name);
    }
}

/// Computes the rates at which the device `name` has been read and written
/// between the last two entries of the I/O history, in bytes per second.
pub fn get_io_rates(list_of_io: &Vec<IOPackage>, name: &String) -> (rates: (u64, u64))
    ensures
        rates.0 == io_rate(list_of_io@, name@, |entry: IOData| entry.read_bytes),
        rates.1 == io_rate(list_of_io@, name@, |entry: IOData| entry.write_bytes),
{
    if list_of_io.len() < 2 {
        return (0, 0);
    }
    let before = &list_of_io[list_of_io.len() - 2];
    let latest = &list_of_io[list_of_io.len() - 1];
    match find_io_entry(&before.io_list, name) {
        Some(i) => match find_io_entry(&latest.io_list, name) {
            Some(j) => {
                proof {
                    assert(is_first_for(before.io_list@, name@, i as int));
                    assert(is_first_for(latest.io_list@, name@, j as int));
                    let ci = choose|c: int| is_first_for(before.io_list@, name@, c);
                    let cj = choose|c: int| is_first_for(latest.io_list@, name@, c);
                    lemma_first_for_is_unique(before.io_list@, name@, i as int, ci);
                    lemma_first_for_is_unique(latest.io_list@, name@, j as int, cj);
                }
                let read: u64 = rate(
                    before.io_list[i].read_bytes,
                    before.instant,
                    latest.io_list[j].read_bytes,
                    latest.instant,
                    1000,
                );
                let write: u64 = rate(
                    before.io_list[i].write_bytes,
                    before.instant,
                    latest.io_list[j].write_bytes,
                    latest.instant,
                    1000,
                );
                (read, write)
            },
            None => {
                assert(forall|c: int| !is_first_for(latest.io_list@, name@, c));
                (0, 0)
            },
        },
        None => {
            assert(forall|c: int| !is_first_for(before.io_list@, name@, c));
            (0, 0)
        },
    }
}

/// The cells of a row of the disk table: name, mount point, space used,
/// free and in all, and the rates at which the disk is read and written.
pub open spec fn disk_cells(disk: DiskData, list_of_io: Seq<IOPackage>) -> Seq<Seq<char>> {
    seq![
        disk.name@,
        disk.mount_point@,
        bytes_text(disk.used_space as nat),
        bytes_text(disk.free_space as nat),
        bytes_text(disk.total_space as nat),
        rate_text(io_rate(list_of_io, disk.name@, |entry: IOData| entry.read_bytes) as nat),
        rate_text(io_rate(list_of_io, disk.name@, |entry: IOData| entry.write_bytes) as nat),
    ]
}

/// Writes a number of bytes per second.
pub fn format_rate(bytes_per_second: u64) -> (text: String)
    ensures
        text@ == rate_text(bytes_per_second as nat),
{
    let mut text = format_bytes(bytes_per_second);
    text.append("/s");
    text
}

/// Writes the rows of the disk table, one for each disk and in their
/// order.
pub fn update_disk_row(disks: &Vec<DiskData>, list_of_io: &Vec<IOPackage>) -> (rows: Vec<
    Vec<String>,
>)
    ensures
        rows@.len() == disks@.len(),
        forall|d: int|
            0 <= d < rows@.len() ==> {
                &&& (#[trigger] rows@[d])@.len() == 7
                &&& forall|c: int|
                    0 <= c < 7 ==> (#[trigger] rows@[d]@[c])@ == disk_cells(
                        disks@[d],
                        list_of_io@,
                    )[c]
            },
{
    let mut rows: Vec<Vec<String>> = Vec::new();
    let mut d: usize = 0;
    while d < disks.len()
        invariant
            0 <= d <= disks@.len(),
            rows@.len() == d,
            forall|k: int|
                0 <= k < d ==> {
                    &&& (#[trigger] rows@[k])@.len() == 7
                    &&& forall|c: int|
                        0 <= c < 7 ==> (#[trigger] rows@[k]@[c])@ == disk_cells(
                            disks@[k],
                            list_of_io@,
                        )[c]
                },
        decreases disks@.len() - d,
    {
        let disk = &disks[d];
        let (read, write) = get_io_rates(list_of_io, &disk.name);
        let mut cells: Vec<String> = Vec::new();
        cells.push(disk.name.clone());
        cells.push(disk.mount_point.clone());
        cells.push(format_bytes(disk.used_space));
        cells.push(format_bytes(disk.free_space));
        cells.push(format_bytes(disk.total_space));
        cells.push(format_rate(read));
        cells.push(format_rate(write));
        rows.push(cells);
        d = d + 1;
    }
    rows
}

/// The letter of a unit of temperature.
pub open spec fn unit_letter(unit: TemperatureType) -> Seq<char> {
    match unit {
        TemperatureType::Celsius => "C"@,
        TemperatureType::Kelvin => "K"@,
        TemperatureType::Fahrenheit => "F"@,
    }
}

/// A temperature of `hundredths` hundredths of a degree, written in whole
/// degrees: what is behind the point is dropped, and the sign stands before
/// what is then still below zero.
pub open spec fn degrees_text(hundredths: int) -> Seq<char> {
    if hundredths <= -100 {
        "-"@ + decimal(((-hundredths) / 100) as nat)
    } else if hundredths < 0 {
        decimal(0)
    } else {
        decimal((hundredths / 100) as nat)
    }
}

/// The cells of a row of the temperature table: the sensor, and its
/// temperature with the letter of the unit.
pub open spec fn temp_cells(sensor: TempData) -> Seq<Seq<char>> {
    seq![
        sensor.component_name@,
        degrees_text(sensor.temperature as int) + unit_letter(sensor.unit),
    ]
}

/// Writes the rows of the temperature table, one for each sensor and in
/// their order.
pub fn update_temp_row(sensors: &Vec<TempData>) -> (rows: Vec<Vec<String>>)
    ensures
        rows@.len() == sensors@.len(),
        forall|s: int|
            0 <= s < rows@.len() ==> {
                &&& (#[trigger] rows@[s])@.len() == 2
                &&& forall|c: int|
                    0 <= c < 2 ==> (#[trigger] rows@[s]@[c])@ == temp_cells(sensors@[s])[c]
            },
{
    let mut rows: Vec<Vec<String>> = Vec::new();
    let mut s: usize = 0;
    while s < sensors.len()
        invariant
            0 <= s <= sensors@.len(),
            rows@.len() == s,
            forall|k: int|
                0 <= k < s ==> {
                    &&& (#[trigger] rows@[k])@.len() == 2
                    &&& forall|c: int|
                        0 <= c < 2 ==> (#[trigger] rows@[k]@[c])@ == temp_cells(sensors@[k])[c]
                },
        decreases sensors@.len() - s,
    {
        let sensor = &sensors[s];
        let mut text = String::new();
        if sensor.temperature <= -100 {
            text.append("-");
            let degrees: u64 = (((-(sensor.temperature as i128)) as u128) / 100) as u64;
            push_decimal(&mut text, degrees);
        } else if sensor.temperature < 0 {
            push_decimal(&mut text, 0);
        } else {
            push_decimal(&mut text, (sensor.temperature as u64) / 100);
        }
        let ghost degrees = text@;
        assert(degrees =~= degrees_text(sensor.temperature as int));
        match sensor.unit {
            TemperatureType::Celsius => text.append("C"),
            TemperatureType::Kelvin => text.append("K"),
            TemperatureType::Fahrenheit => text.append("F"),
        }
        let mut cells: Vec<String> = Vec::new();
        cells.push(sensor.component_name.clone());
        cells.push(text);
        rows.push(cells);
        s = s + 1;
    }
    rows
}

} // verus!
