//! Which screen is drawn.
//!
//! The dashboard gives way to the help dialog, and to the dialog that asks
//! before a process is killed. The kill dialog closes itself when there is
//! nothing left to ask about.

use vstd::prelude::*;
use vstd::string::StringExecFns;
use crate::data_conversion::format::{decimal, push_decimal};

verus! {

/// What is drawn in one frame.
#[derive(Clone, Copy, Debug, PartialEq, Eq, Structural)]
pub enum Screen {
    /// The help dialog.
    Help,
    /// The dialog that tells why a process could not be killed.
    KillError,
    /// The dialog that asks whether to kill the selected processes.
    KillConfirmation,
    /// Nothing: the kill dialog has just closed itself.
    Blank,
    /// The dashboard.
    Dashboard,
}

/// The screen to draw. `num_highlighted` is the number of processes that
/// the kill dialog is about, where there is a selection at all.
pub open spec fn screen_of(
    show_help: bool,
    show_dd: bool,
    has_dd_err: bool,
    num_highlighted: Option<usize>,
) -> Screen {
    if show_help {
        Screen::Help
    } else if show_dd {
        if has_dd_err {
            Screen::KillError
        } else if num_highlighted is Some && num_highlighted->0 > 0 {
            Screen::KillConfirmation
        } else {
            Screen::Blank
        }
    } else {
        Screen::Dashboard
    }
}

/// Chooses the screen to draw, and closes the kill dialog where it has
/// nothing to show.
pub fn choose_screen(
    show_help: bool,
    show_dd: &mut bool,
    has_dd_err: bool,
    num_highlighted: Option<usize>,
) -> (screen: Screen)
    ensures
        screen == screen_of(show_help, *old(show_dd), has_dd_err, num_highlighted),
        *final(show_dd) == (*old(show_dd) && screen != Screen::Blank),
{
    if show_help {
        Screen::Help
    } else if *show_dd {
        if has_dd_err {
            Screen::KillError
        } else {
            match num_highlighted {
                Some(n) => {
                    if n > 0 {
                        Screen::KillConfirmation
                    } else {
                        *show_dd = false;
                        Screen::Blank
                    }
                },
                None => {
                    *show_dd = false;
                    Screen::Blank
                },
            }
        }
    } else {
        Screen::Dashboard
    }
}

/// The question of the kill dialog for a group of `count` processes named
/// `name`.
pub open spec fn group_kill_question(count: nat, name: Seq<char>) -> Seq<char> {
    "\nAre you sure you want to kill "@ + decimal(count) + " process(es) with name "@ + name
        + "?"@
}

/// The question of the kill dialog for the process `name` with id `pid`.
pub open spec fn process_kill_question(name: Seq<char>, pid: nat) -> Seq<char> {
    "\nAre you sure you want to kill process "@ + name + " with PID "@ + decimal(pid) + "?"@
}

/// Writes the question of the kill dialog: about the whole group where the
/// process list is grouped, about the one process where it is not.
pub fn kill_question(grouped: bool, count: usize, name: &str, pid: u32) -> (text: String)
    ensures
        text@ == if grouped {
            group_kill_question(count as nat, name@)
        } else {
            process_kill_question(name@, pid as nat)
        },
{
    let mut text = String::new();
    if grouped {
        text.append("\nAre you sure you want to kill ");
        push_decimal(&mut text, count as u64);
        text.append(" process(es) with name ");
        text.append(name);
        text.append("?");
        assert(text@ =~= group_kill_question(count as nat, name@));
    } else {
        text.append("\nAre you sure you want to kill process ");
        text.append(name);
        text.append(" with PID ");
        push_decimal(&mut text, pid as u64);
        text.append("?");
        assert(text@ =~= process_kill_question(name@, pid as nat));
    }
    text
}

/// The shares, in percent, in which the area of the processor panel is
/// split between legend and graph: the legend first where it stands on the
/// left.
pub fn cpu_chunk_percentages(left_legend: bool) -> (shares: (u16, u16))
    ensures
        shares == if left_legend {
            (15u16, 85u16)
        } else {
            (85u16, 15u16)
        },
{
    if left_legend {
        (15, 85)
    } else {
        (85, 15)
    }
}

/// The shares, in percent, in which the area of the network panel is split
/// between its two parts.
pub fn network_chunk_percentages(left_legend: bool) -> (shares: (u16, u16))
    ensures
        shares == if left_legend {
            (10u16, 90u16)
        } else {
            (75u16, 10u16)
        },
{
    if left_legend {
        (10, 90)
    } else {
        (75, 10)
    }
}

/// Which of the two parts of a split panel holds the legend, and which the
/// graph.
pub fn legend_and_graph_index(left_legend: bool) -> (places: (usize, usize))
    ensures
        places == if left_legend {
            (0usize, 1usize)
        } else {
            (1usize, 0usize)
        },
{
    if left_legend {
        (0, 1)
    } else {
        (1, 0)
    }
}

} // verus!
