//! Headers, legends and labels.

use vstd::prelude::*;
use vstd::string::StringExecFns;
use crate::data_conversion::format::{decimal, push_decimal};
use crate::data_conversion::points::ConvertedCpuData;
use crate::data_conversion::sorting::ProcessSorting;

verus! {

/// The mark behind the header of the column by which the process table is
/// sorted: it points down where the order is reversed, up where it is
/// not.
pub open spec fn direction_mark(reverse_order: bool) -> Seq<char> {
    if reverse_order {
        "⯆"@
    } else {
        "⯅"@
    }
}

/// The mark where `column` is the column sorted by, and nothing where it is
/// not.
pub open spec fn mark_for(
    column: ProcessSorting,
    sorting_type: ProcessSorting,
    reverse_order: bool,
) -> Seq<char> {
    if column == sorting_type {
        direction_mark(reverse_order)
    } else {
        Seq::empty()
    }
}

/// The headers of the process table. The first column counts the
/// processes of a group where the list is grouped, and holds the process id
/// where it is not.
pub open spec fn process_headers_text(
    grouped: bool,
    sorting_type: ProcessSorting,
    reverse_order: bool,
) -> Seq<Seq<char>> {
    seq![
        (if grouped {
            "Count"@
        } else {
            "PID(p)"@
        }) + mark_for(ProcessSorting::PID, sorting_type, reverse_order),
        "Name(n)"@ + mark_for(ProcessSorting::NAME, sorting_type, reverse_order),
        "CPU%(c)"@ + mark_for(ProcessSorting::CPU, sorting_type, reverse_order),
        "Mem%(m)"@ + mark_for(ProcessSorting::MEM, sorting_type, reverse_order),
    ]
}

fn push_mark(
    header: &mut String,
    column: ProcessSorting,
    sorting_type: ProcessSorting,
    reverse_order: bool,
)
    ensures
        final(header)@ == old(header)@ + mark_for(column, sorting_type, reverse_order),
{
    if column == sorting_type {
        if reverse_order {
            header.append("⯆");
        } else {
            header.append("⯅");
        }
    } else {
        assert(header@ + Seq::<char>::empty() =~= header@);
    }
}

/// Writes the headers of the process table.
pub fn process_headers(grouped: bool, sorting_type: ProcessSorting, reverse_order: bool) -> (headers:
    Vec<String>)
    ensures
        headers@.len() == 4,
        forall|i: int|
            0 <= i < 4 ==> (#[trigger] headers@[i])@ == process_headers_text(
                grouped,
                sorting_type,
                reverse_order,
            )[i],
{
    let mut pid_or_name = if grouped {
        "Count".to_owned()
    } else {
        "PID(p)".to_owned()
    };
    let mut name = "Name(n)".to_owned();
    let mut cpu = "CPU%(c)".to_owned();
    let mut mem = "Mem%(m)".to_owned();
    push_mark(&mut pid_or_name, ProcessSorting::PID, sorting_type, reverse_order);
    push_mark(&mut name, ProcessSorting::NAME, sorting_type, reverse_order);
    push_mark(&mut cpu, ProcessSorting::CPU, sorting_type, reverse_order);
    push_mark(&mut mem, ProcessSorting::MEM, sorting_type, reverse_order);
    let mut headers: Vec<String> = Vec::new();
    headers.push(pid_or_name);
    headers.push(name);
    headers.push(cpu);
    headers.push(mem);
    headers
}

/// A share given in basis points, in whole percent, rounded to the nearest
/// and up from the half.
pub open spec fn whole_percent(basis_points: nat) -> nat {
    basis_points / 100 + if basis_points % 100 >= 50 {
        1nat
    } else {
        0nat
    }
}

/// Rounds a share given in basis points to whole percent.
pub fn to_whole_percent(basis_points: u64) -> (percent: u64)
    ensures
        percent == whole_percent(basis_points as nat),
{
    basis_points / 100 + if basis_points % 100 >= 50 {
        1
    } else {
        0
    }
}

/// The cells of a row of the processor legend: the name of the core, and
/// its latest usage in whole percent.
pub open spec fn legend_cells(line: ConvertedCpuData) -> Seq<Seq<char>> {
    seq![line.cpu_name@, decimal(whole_percent(line.cpu_data@.last().1 as nat)) + "%"@]
}

/// The lines, from line `start` on, that have a point to show.
pub open spec fn legend_lines(lines: Seq<ConvertedCpuData>, start: int) -> Seq<ConvertedCpuData> {
    lines.skip(start).filter(|line: ConvertedCpuData| line.cpu_data@.len() > 0)
}

/// Writes the rows of the processor legend: one for each line from line
/// `start` on that has a point to show, in their order.
pub fn cpu_legend_rows(lines: &Vec<ConvertedCpuData>, start: usize) -> (rows: Vec<Vec<String>>)
    requires
        start <= lines@.len(),
    ensures
        rows@.len() == legend_lines(lines@, start as int).len(),
        forall|r: int|
            0 <= r < rows@.len() ==> {
                &&& (#[trigger] rows@[r])@.len() == 2
                &&& forall|c: int|
                    0 <= c < 2 ==> (#[trigger] rows@[r]@[c])@ == legend_cells(
                        legend_lines(lines@, start as int)[r],
                    )[c]
            },
{
    let ghost shown = lines@.skip(start as int);
    let ghost has_point = |line: ConvertedCpuData| line.cpu_data@.len() > 0;
    let mut rows: Vec<Vec<String>> = Vec::new();
    proof {
        reveal(Seq::filter);
        assert(shown.take(0) =~= Seq::<ConvertedCpuData>::empty());
    }
    let mut i: usize = start;
    while i < lines.len()
        invariant
            start <= i <= lines@.len(),
            shown == lines@.skip(start as int),
            forall|line: ConvertedCpuData| #[trigger] has_point(line) == (line.cpu_data@.len() > 0),
            rows@.len() == shown.take(i - start).filter(has_point).len(),
            forall|r: int|
                0 <= r < rows@.len() ==> {
                    &&& (#[trigger] rows@[r])@.len() == 2
                    &&& forall|c: int|
                        0 <= c < 2 ==> (#[trigger] rows@[r]@[c])@ == legend_cells(
                            shown.take(i - start).filter(has_point)[r],
                        )[c]
                },
        decreases lines@.len() - i,
    {
        let line = &lines[i];
        proof {
            let before = shown.take(i - start);
            let longer = shown.take(i - start + 1);
            assert(longer.drop_last() =~= before);
            assert(longer.last() == *line);
            assert(longer.filter(has_point) == if has_point(*line) {
                before.filter(has_point).push(*line)
            } else {
                before.filter(has_point)
            }) by {
                reveal(Seq::filter);
            }
        }
        if line.cpu_data.len() > 0 {
            let latest = line.cpu_data[line.cpu_data.len() - 1];
            let mut usage = String::new();
            push_decimal(&mut usage, to_whole_percent(latest.1));
            usage.append("%");
            let mut cells: Vec<String> = Vec::new();
            cells.push(line.cpu_name.clone());
            cells.push(usage);
            assert(usage@ =~= legend_cells(*line)[1]);
            rows.push(cells);
        }
        i = i + 1;
    }
    proof {
        assert(shown.take(lines@.len() - start) =~= shown);
    }
    rows
}

/// A number of bytes in gibibytes, with one digit behind the point.
pub open spec fn gibibytes_text(bytes: nat) -> Seq<char> {
    decimal(bytes / 0x4000_0000) + "."@ + decimal((bytes % 0x4000_0000) * 10 / 0x4000_0000)
}

/// A number written in at least three places, with blanks before it where
/// it has fewer digits.
pub open spec fn padded_text(value: nat) -> Seq<char> {
    if value < 10 {
        "  "@ + decimal(value)
    } else if value < 100 {
        " "@ + decimal(value)
    } else {
        decimal(value)
    }
}

/// The label of a line of the memory graph: what the line stands for, the
/// share in use in whole percent, and the amount in use and in all in
/// gibibytes.
pub open spec fn memory_label_text(
    name: Seq<char>,
    usage: nat,
    used_bytes: nat,
    total_bytes: nat,
) -> Seq<char> {
    name + ":"@ + padded_text(whole_percent(usage)) + "%   "@ + gibibytes_text(used_bytes) + "GB/"@
        + gibibytes_text(total_bytes) + "GB"@
}

fn push_gibibytes(text: &mut String, bytes: u64)
    ensures
        final(text)@ == old(text)@ + gibibytes_text(bytes as nat),
{
    push_decimal(text, bytes / 0x4000_0000);
    text.append(".");
    push_decimal(text, (bytes % 0x4000_0000) * 10 / 0x4000_0000);
    assert(text@ =~= old(text)@ + gibibytes_text(bytes as nat));
}

/// Writes the label of a line of the memory graph. `usage` is the share in
/// use in basis points.
pub fn memory_label(name: &str, usage: u64, used_bytes: u64, total_bytes: u64) -> (label: String)
    ensures
        label@ == memory_label_text(name@, usage as nat, used_bytes as nat, total_bytes as nat),
{
    let percent: u64 = to_whole_percent(usage);
    let mut label = String::new();
    label.append(name);
    label.append(":");
    if percent < 10 {
        label.append("  ");
    } else if percent < 100 {
        label.append(" ");
    }
    push_decimal(&mut label, percent);
    assert(label@ =~= name@ + ":"@ + padded_text(percent as nat));
    label.append("%   ");
    push_gibibytes(&mut label, used_bytes);
    label.append("GB/");
    push_gibibytes(&mut label, total_bytes);
    label.append("GB");
    assert(label@ =~= memory_label_text(
        name@,
        usage as nat,
        used_bytes as nat,
        total_bytes as nat,
    ));
    label
}

} // verus!
