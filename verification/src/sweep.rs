//! The decisions of a sweep over thread counts: what a finished run adds to
//! the table, and what is to be done next.

use crate::duration::Duration;
use crate::quant::{is_min_elapsed, is_min_of, min_elapsed_time, CapturedRun, MinElapsed};
use crate::text::line_texts;
use vstd::prelude::*;

verus! {

/// One row of the table of a sweep: the number of threads, and the shortest
/// time that an iteration took with them.
#[derive(Clone, Copy, Debug, PartialEq, Eq, Structural)]
pub struct SweepRow {
    pub threads: usize,
    pub best_time: Duration,
}

/// What a sweep does next.
#[derive(Clone, Copy, Debug, PartialEq, Eq, Structural)]
pub enum SweepNext {
    /// Run the demo with this many threads.
    Run { threads: usize },
    /// Every thread count has been run.
    Done,
    /// The last run ended in failure, with this exit code if it had one:
    /// the sweep ends.
    Failed { code: Option<i32> },
    /// The last run ended well and printed no iteration line: the sweep
    /// ends.
    NoTiming,
    /// The last run ended well, and every iteration line of it reported a
    /// longer span than can be held: the sweep ends.
    TimingTooLong,
}

/// What one finished run of a sweep comes to: the row for the table, if the
/// run gave one, and what is to be done next.
#[derive(Clone, Copy, Debug, PartialEq, Eq, Structural)]
pub struct SweepStep {
    pub row: Option<SweepRow>,
    pub next: SweepNext,
}

/// How a sweep from one thread up to `max_threads` begins.
pub open spec fn sweep_start(max_threads: usize) -> SweepNext {
    if max_threads >= 1 {
        SweepNext::Run { threads: 1 }
    } else {
        SweepNext::Done
    }
}

/// What follows the run with `threads` threads of a sweep up to
/// `max_threads`, whose iteration lines came to `timing` and which ended as
/// `run` did. A run that ended in failure ends the sweep with its exit
/// code, whatever it printed. A run that ended well and gave no time ends
/// it too.
pub open spec fn sweep_after(
    threads: usize,
    max_threads: usize,
    run: CapturedRun,
    timing: MinElapsed,
) -> SweepNext {
    if !run.exit_status.success {
        SweepNext::Failed { code: run.exit_status.code }
    } else {
        match timing {
            MinElapsed::NoLine => SweepNext::NoTiming,
            MinElapsed::TooLong => SweepNext::TimingTooLong,
            MinElapsed::Time(_) => if threads < max_threads {
                SweepNext::Run { threads: (threads + 1) as usize }
            } else {
                SweepNext::Done
            },
        }
    }
}

/// The row that a run with `threads` threads gives, where its iteration
/// lines came to `timing`.
pub open spec fn sweep_row(threads: usize, timing: MinElapsed) -> Option<SweepRow> {
    match timing {
        MinElapsed::Time(best_time) => Some(SweepRow { threads, best_time }),
        _ => None,
    }
}

/// Begins a sweep from one thread up to `max_threads`.
pub fn cpu_test_start(max_threads: usize) -> (next: SweepNext)
    ensures
        next == sweep_start(max_threads),
{
    if max_threads >= 1 {
        SweepNext::Run { threads: 1 }
    } else {
        SweepNext::Done
    }
}

/// Takes in the run with `threads` threads of a sweep up to `max_threads`.
/// A run that printed an iteration line gives a row with the least elapsed
/// time, whether it ended well or not. A run that ended in failure ends the
/// sweep with its exit code, with or without a row. The sweep goes on to
/// the next thread count only after a run that gave a row and ended in
/// success.
pub fn cpu_test_step(threads: usize, max_threads: usize, run: &CapturedRun) -> (step: SweepStep)
    ensures
        exists|timing: MinElapsed|
            {
                &&& #[trigger] is_min_of(line_texts(run.lines@), timing)
                &&& step.row == sweep_row(threads, timing)
                &&& step.next == sweep_after(threads, max_threads, *run, timing)
            },
        !run.exit_status.success ==> step.next == (SweepNext::Failed {
            code: run.exit_status.code,
        }),
        step.row matches Some(row) ==> row.threads == threads && is_min_elapsed(
            line_texts(run.lines@),
            row.best_time,
        ),
        step.next is Run ==> step.row is Some && run.exit_status.success,
{
    let timing = min_elapsed_time(&run.lines);
    let row = match timing {
        MinElapsed::Time(best_time) => Some(SweepRow { threads, best_time }),
        _ => None,
    };
    let next = if !run.exit_status.success {
        SweepNext::Failed { code: run.exit_status.code }
    } else {
        match timing {
            MinElapsed::NoLine => SweepNext::NoTiming,
            MinElapsed::TooLong => SweepNext::TimingTooLong,
            MinElapsed::Time(_) => if threads < max_threads {
                SweepNext::Run { threads: threads + 1 }
            } else {
                SweepNext::Done
            },
        }
    };
    SweepStep { row, next }
}

/// A sweep that has not failed runs every thread count from one up to the
/// greatest, in order, and then is done: after the run with `threads`
/// threads comes the one with one more, until `threads` is `max_threads`.
pub proof fn lemma_sweep_runs_in_order(
    threads: usize,
    max_threads: usize,
    run: CapturedRun,
    best_time: Duration,
)
    requires
        1 <= threads <= max_threads,
        run.exit_status.success,
    ensures
        threads < max_threads ==> sweep_after(threads, max_threads, run, MinElapsed::Time(best_time)) == (SweepNext::Run {
            threads: (threads + 1) as usize,
        }),
        threads == max_threads ==> sweep_after(
            threads,
            max_threads,
            run,
            MinElapsed::Time(best_time),
        ) == SweepNext::Done,
{
}

/// A run that ended in failure ends the sweep with its exit code, whatever
/// its thread count and whether it gave a row or not: no run follows it.
pub proof fn lemma_failure_ends_sweep(
    threads: usize,
    max_threads: usize,
    run: CapturedRun,
    timing: MinElapsed,
)
    requires
        !run.exit_status.success,
    ensures
        sweep_after(threads, max_threads, run, timing) == (SweepNext::Failed {
            code: run.exit_status.code,
        }),
{
}

} // verus!
