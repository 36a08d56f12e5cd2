//! The lines of the processor graph and their colours.
//!
//! Each core is drawn as a line in a colour of its own, as far as the
//! colours go round. Where the average over all cores is shown, it is the
//! first line of the data and is drawn last, over the others.

use vstd::prelude::*;

verus! {

/// One line of a graph: which line of the data it draws, and in which
/// colour of the palette.
#[derive(Clone, Copy, Debug, PartialEq, Eq, Structural)]
pub struct GraphLine {
    pub line: usize,
    pub colour: usize,
}

/// The line drawn at place `place` of the processor graph.
pub open spec fn cpu_graph_line(
    place: int,
    num_lines: int,
    show_average_cpu: bool,
    num_colours: int,
) -> GraphLine {
    if !show_average_cpu {
        GraphLine { line: place as usize, colour: (place % num_colours) as usize }
    } else if place < num_lines - 1 {
        GraphLine { line: (place + 1) as usize, colour: (place % num_colours) as usize }
    } else {
        GraphLine { line: 0, colour: ((num_lines - 1) % num_colours) as usize }
    }
}

/// Lists the lines of the processor graph in the order in which they are
/// drawn.
pub fn cpu_graph_lines(num_lines: usize, show_average_cpu: bool, num_colours: usize) -> (lines:
    Vec<GraphLine>)
    requires
        num_colours > 0,
    ensures
        lines@.len() == num_lines,
        forall|place: int|
            0 <= place < num_lines ==> #[trigger] lines@[place] == cpu_graph_line(
                place,
                num_lines as int,
                show_average_cpu,
                num_colours as int,
            ),
        forall|place: int| 0 <= place < num_lines ==> (#[trigger] lines@[place]).colour < num_colours,
{
    let mut lines: Vec<GraphLine> = Vec::new();
    let first: usize = if show_average_cpu {
        1
    } else {
        0
    };
    let mut i: usize = first;
    while i < num_lines
        invariant
            first <= i || num_lines == 0,
            i <= num_lines || num_lines == 0,
            num_colours > 0,
            first == if show_average_cpu {
                1usize
            } else {
                0usize
            },
            num_lines > 0 ==> lines@.len() == i - first,
            num_lines == 0 ==> lines@.len() == 0,
            forall|place: int|
                0 <= place < lines@.len() ==> #[trigger] lines@[place] == cpu_graph_line(
                    place,
                    num_lines as int,
                    show_average_cpu,
                    num_colours as int,
                ) && lines@[place].colour < num_colours,
        decreases num_lines - i,
    {
        lines.push(GraphLine { line: i, colour: (i - first) % num_colours });
        i = i + 1;
    }
    if show_average_cpu && num_lines > 0 {
        lines.push(GraphLine { line: 0, colour: (num_lines - 1) % num_colours });
    }
    lines
}

} // verus!
