//! Forgetting what is too old.
//!
//! Histories grow with every tick. From time to time the engine sweeps
//! them and drops every entry that is older than the staleness window, so
//! that memory stays bounded however long the monitor runs.

use vstd::prelude::*;
use std::collections::HashMap;
use vstd::std_specs::iter::IteratorSpec;
use crate::data_collection::Timed;
use crate::data_collection::rate::elapsed;

verus! {

/// Whether something last touched at `timestamp` is older, at `now`, than
/// `stale_max_seconds` allow. Instants are in milliseconds.
pub open spec fn stale(timestamp: u64, now: u64, stale_max_seconds: u64) -> bool {
    elapsed(timestamp as int, now as int) > stale_max_seconds * 1000
}

/// The entries of `history` that are not stale at `now`, in their order.
pub open spec fn retained<T: Timed>(history: Seq<T>, now: u64, stale_max_seconds: u64) -> Seq<T> {
    history.filter(|entry: T| !stale(entry.timestamp(), now, stale_max_seconds))
}

/// What is remembered of the processes that were seen within the staleness
/// window.
pub open spec fn retained_processes(
    table: Map<u32, (u64, u64)>,
    now: u64,
    stale_max_seconds: u64,
) -> Map<u32, (u64, u64)> {
    table.restrict(
        Set::new(|pid: u32| table.contains_key(pid) && !stale(table[pid].1, now, stale_max_seconds)),
    )
}

/// Sweeping a history with one more entry: the entry stays if it is not
/// stale, after what stays of the entries before it.
pub proof fn lemma_retained_push<T: Timed>(
    history: Seq<T>,
    entry: T,
    now: u64,
    stale_max_seconds: u64,
)
    ensures
        retained(history.push(entry), now, stale_max_seconds) == if stale(
            entry.timestamp(),
            now,
            stale_max_seconds,
        ) {
            retained(history, now, stale_max_seconds)
        } else {
            retained(history, now, stale_max_seconds).push(entry)
        },
{
    reveal(Seq::filter);
    assert(history.push(entry).drop_last() =~= history);
}

/// After a sweep no entry is stale, and the sweep has dropped no entry that
/// was not.
pub proof fn lemma_retained_is_fresh<T: Timed>(history: Seq<T>, now: u64, stale_max_seconds: u64)
    ensures
        forall|i: int|
            0 <= i < retained(history, now, stale_max_seconds).len() ==> !stale(
                (#[trigger] retained(history, now, stale_max_seconds)[i]).timestamp(),
                now,
                stale_max_seconds,
            ),
        forall|i: int|
            0 <= i < history.len() && !stale(
                (#[trigger] history[i]).timestamp(),
                now,
                stale_max_seconds,
            ) ==> retained(history, now, stale_max_seconds).contains(history[i]),
        retained(history, now, stale_max_seconds).len() <= history.len(),
{
    let pred = |entry: T| !stale(entry.timestamp(), now, stale_max_seconds);
    let kept = history.filter(pred);
    assert forall|i: int| 0 <= i < kept.len() implies pred(#[trigger] kept[i]) by {
        history.lemma_filter_pred(pred, i);
    }
    assert forall|i: int| 0 <= i < history.len() && pred(#[trigger] history[i]) implies kept.contains(
        history[i],
    ) by {
        history.lemma_filter_contains(pred, i);
    }
    history.lemma_filter_len(pred);
}

/// A sweep of a history in which nothing is stale changes nothing.
pub proof fn lemma_retained_keeps_fresh_history<T: Timed>(
    history: Seq<T>,
    now: u64,
    stale_max_seconds: u64,
)
    requires
        forall|i: int|
            0 <= i < history.len() ==> !stale(
                (#[trigger] history[i]).timestamp(),
                now,
                stale_max_seconds,
            ),
    ensures
        retained(history, now, stale_max_seconds) == history,
    decreases history.len(),
{
    if history.len() == 0 {
        reveal(Seq::filter);
    } else {
        let shorter = history.drop_last();
        assert forall|i: int| 0 <= i < shorter.len() implies !stale(
            (#[trigger] shorter[i]).timestamp(),
            now,
            stale_max_seconds,
        ) by {
            assert(shorter[i] == history[i]);
        }
        lemma_retained_keeps_fresh_history(shorter, now, stale_max_seconds);
        lemma_retained_push(shorter, history.last(), now, stale_max_seconds);
        assert(shorter.push(history.last()) =~= history);
    }
}

/// Tells whether something last touched at `timestamp` is stale at `now`.
pub fn is_stale(timestamp: u64, now: u64, stale_max_seconds: u64) -> (result: bool)
    ensures
        result == stale(timestamp, now, stale_max_seconds),
{
    assert(stale_max_seconds * 1000 <= 0xffff_ffff_ffff_ffff * 1000) by (nonlinear_arith)
        requires
            stale_max_seconds <= 0xffff_ffff_ffff_ffff,
    ;
    let window: u128 = (stale_max_seconds as u128) * 1000;
    now > timestamp && ((now - timestamp) as u128) > window
}

/// Drops from a history every entry that is stale at `now`, and keeps the
/// others in their order.
pub fn retain_fresh<T: Timed>(history: &mut Vec<T>, now: u64, stale_max_seconds: u64)
    ensures
        final(history)@ == retained(old(history)@, now, stale_max_seconds),
        forall|i: int|
            0 <= i < final(history)@.len() ==> !stale(
                (#[trigger] final(history)@[i]).timestamp(),
                now,
                stale_max_seconds,
            ),
{
    let mut entries: Vec<T> = Vec::new();
    std::mem::swap(history, &mut entries);
    proof {
        reveal(Seq::filter);
        assert(entries@.take(0) =~= Seq::<T>::empty());
    }
    for entry in it: entries.into_iter()
        invariant
            it.seq() == old(history)@,
            history@ == retained(it.seq().take(it.index() as int), now, stale_max_seconds),
    {
        proof {
            let before = it.seq().take(it.index() as int);
            assert(it.seq().take(it.index() + 1) =~= before.push(entry));
            lemma_retained_push(before, entry, now, stale_max_seconds);
        }
        if !is_stale(entry.instant(), now, stale_max_seconds) {
            history.push(entry);
        }
    }
    proof {
        assert(old(history)@.take(old(history)@.len() as int) =~= old(history)@);
        lemma_retained_is_fresh(old(history)@, now, stale_max_seconds);
    }
}

/// Forgets every process that was last seen longer ago than the staleness
/// window, and keeps what is remembered of the others.
pub fn retain_fresh_processes(
    prev_pid_stats: &mut HashMap<u32, (u64, u64)>,
    now: u64,
    stale_max_seconds: u64,
)
    ensures
        final(prev_pid_stats)@ == retained_processes(old(prev_pid_stats)@, now, stale_max_seconds),
        forall|pid: u32| #[trigger]
            final(prev_pid_stats)@.contains_key(pid) ==> !stale(
                final(prev_pid_stats)@[pid].1,
                now,
                stale_max_seconds,
            ),
{
    broadcast use vstd::std_specs::hash::group_hash_axioms;

    let ghost before = prev_pid_stats@;
    let mut stale_list: Vec<u32> = Vec::new();
    for entry in it: prev_pid_stats.iter()
        invariant
            prev_pid_stats@ == before,
            it.seq() == vstd::std_specs::hash::spec_hash_map_iter(prev_pid_stats).remaining(),
            forall|i: int|
                0 <= i < stale_list@.len() ==> before.contains_key(#[trigger] stale_list@[i])
                    && stale(before[stale_list@[i]].1, now, stale_max_seconds),
            forall|j: int|
                0 <= j < it.index() && stale((*(#[trigger] it.seq()[j]).1).1, now, stale_max_seconds)
                    ==> stale_list@.contains(*it.seq()[j].0),
    {
        let (pid, seen) = entry;
        let ghost listed = stale_list@;
        assert(before.contains_key(*pid) && before[*pid] == *seen);
        if is_stale(seen.1, now, stale_max_seconds) {
            stale_list.push(*pid);
            assert forall|j: int|
                0 <= j < it.index() + 1 && stale(
                    (*(#[trigger] it.seq()[j]).1).1,
                    now,
                    stale_max_seconds,
                ) implies stale_list@.contains(*it.seq()[j].0) by {
                if j < it.index() {
                    let at = choose|at: int| 0 <= at < listed.len() && listed[at] == *it.seq()[j].0;
                    assert(stale_list@[at] == *it.seq()[j].0);
                } else {
                    assert(stale_list@[stale_list@.len() - 1] == *pid);
                }
            }
        }
    }
    assert forall|pid: u32|
        before.contains_key(pid) && stale(
            before[pid].1,
            now,
            stale_max_seconds,
        ) implies stale_list@.contains(pid) by {
        let walked = vstd::std_specs::hash::spec_hash_map_iter(prev_pid_stats).remaining();
        assert(walked.contains((&pid, &before[pid])));
        let j = choose|j: int| 0 <= j < walked.len() && walked[j] == (&pid, &before[pid]);
        assert(stale((*walked[j].1).1, now, stale_max_seconds));
    }
    let mut i: usize = 0;
    while i < stale_list.len()
        invariant
            0 <= i <= stale_list@.len(),
            forall|pid: u32| #[trigger]
                prev_pid_stats@.contains_key(pid) <==> before.contains_key(pid) && !stale_list@.take(
                    i as int,
                ).contains(pid),
            forall|pid: u32| #[trigger]
                prev_pid_stats@.contains_key(pid) ==> prev_pid_stats@[pid] == before[pid],
        decreases stale_list@.len() - i,
    {
        let ghost done = stale_list@.take(i as int);
        let ghost more = stale_list@.take(i + 1);
        let pid: u32 = stale_list[i];
        prev_pid_stats.remove(&pid);
        proof {
            assert(more == done.push(pid));
            assert forall|other: u32| more.contains(other) <==> done.contains(other) || other
                == pid by {
                if done.contains(other) {
                    let at = choose|at: int| 0 <= at < done.len() && done[at] == other;
                    assert(more[at] == other);
                }
                if other == pid {
                    assert(more[i as int] == other);
                }
            }
        }
        i = i + 1;
    }
    proof {
        assert(stale_list@.take(stale_list@.len() as int) =~= stale_list@);
        assert(prev_pid_stats@ =~= retained_processes(before, now, stale_max_seconds));
    }
}

} // verus!
