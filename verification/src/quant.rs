//! What a finished run hands over, and the reading of the elapsed time that
//! a demo prints for each of its test iterations.

use crate::duration::{
    measurement, millis_to_nanos, millis_unit, read_millis, reading, Duration, Reading,
};
use crate::text::{
    chars_of, digits_end, has_at, is_decimal, line_texts, matches_at, scan_digits, scan_spaces,
    slice_chars, spaces_end,
};
use vstd::prelude::*;
use vstd::string::StrSliceExecFns;

verus! {

/// How a process ended: in success or not, and its exit code if it had one.
#[derive(Clone, Copy, Debug, PartialEq, Eq, Structural)]
pub struct ExitResult {
    pub success: bool,
    pub code: Option<i32>,
}

/// A finished run: how the process ended, and every line it wrote, in the
/// order in which the lines arrived.
#[derive(Debug)]
pub struct CapturedRun {
    pub exit_status: ExitResult,
    pub lines: Vec<String>,
}

/// What opens an iteration line.
pub open spec fn iteration_prefix() -> Seq<char> {
    "Running test iteration"@
}

/// What opens the elapsed time of an iteration line.
pub open spec fn elapsed_prefix() -> Seq<char> {
    "[Elapsed time : "@
}

/// The text of the number that `line` reports, where it is an iteration
/// line: `Running test iteration <n> [Elapsed time : <number>ms]`, with one
/// or more white-space characters on either side of the digits `<n>`, and a
/// decimal for `<number>`.
pub open spec fn elapsed_shape(line: Seq<char>) -> Option<Seq<char>> {
    let count_at = spaces_end(line, iteration_prefix().len() as int);
    let count_end = digits_end(line, count_at);
    let bracket_at = spaces_end(line, count_end);
    let number_at = bracket_at + elapsed_prefix().len();
    let unit_at = line.len() - millis_unit().len();
    let number = line.subrange(number_at, unit_at);
    if has_at(line, 0, iteration_prefix()) && iteration_prefix().len() < count_at && count_at
        < count_end && count_end < bracket_at && has_at(line, bracket_at, elapsed_prefix())
        && number_at <= unit_at && has_at(line, unit_at, millis_unit()) && is_decimal(number) {
        Some(number)
    } else {
        None
    }
}

/// The nanoseconds that `line` reports, where it is an iteration line,
/// however many they are.
pub open spec fn elapsed_nanos(line: Seq<char>) -> Option<nat> {
    match elapsed_shape(line) {
        Some(number) => Some(millis_to_nanos(number)),
        None => None,
    }
}

/// The span that `line` reports, where it is an iteration line and a
/// `Duration` can hold the span.
pub open spec fn elapsed_line(line: Seq<char>) -> Option<Duration> {
    match elapsed_shape(line) {
        Some(number) => measurement(number),
        None => None,
    }
}

/// What `line` comes to as an iteration line: nothing where it is none.
pub open spec fn elapsed_reading(line: Seq<char>) -> Option<Reading> {
    match elapsed_shape(line) {
        Some(number) => Some(reading(number)),
        None => None,
    }
}

/// Reads an iteration line, and tells one that reports too long a span from
/// a line of another shape.
pub fn read_elapsed_time_line(line: &str) -> (r: Option<Reading>)
    ensures
        r == elapsed_reading(line@),
        r != Some(Reading::NotDecimal),
{
    let v = chars_of(line);
    let n = v.len();
    let p = "Running test iteration".unicode_len();
    let e = "[Elapsed time : ".unicode_len();
    let u = "ms]".unicode_len();
    if n < u || n < p || !matches_at(&v, 0, "Running test iteration") {
        return None;
    }
    let unit_at = n - u;
    let count_at = scan_spaces(&v, p);
    let count_end = scan_digits(&v, count_at);
    let bracket_at = scan_spaces(&v, count_end);
    if count_at <= p || count_end <= count_at || bracket_at <= count_end {
        return None;
    }
    if !matches_at(&v, bracket_at, "[Elapsed time : ") || !matches_at(&v, unit_at, "ms]") {
        return None;
    }
    let number_at = bracket_at + e;
    if number_at > unit_at {
        return None;
    }
    let number = slice_chars(&v, number_at, unit_at);
    match read_millis(&number) {
        Reading::NotDecimal => None,
        found => Some(found),
    }
}

/// Reads an iteration line: the time that the iteration took.
pub fn parse_elapsed_time_line(line: &str) -> (r: Option<Duration>)
    ensures
        r == elapsed_line(line@),
{
    match read_elapsed_time_line(line) {
        Some(Reading::Time(time)) => Some(time),
        _ => None,
    }
}

/// Some line of `lines` is an iteration line.
pub open spec fn has_elapsed(lines: Seq<Seq<char>>) -> bool {
    exists|i: int| 0 <= i < lines.len() && (#[trigger] elapsed_shape(lines[i])) is Some
}

/// Some line of `lines` is an iteration line that reports a span which a
/// `Duration` can hold.
pub open spec fn has_elapsed_time(lines: Seq<Seq<char>>) -> bool {
    exists|i: int| 0 <= i < lines.len() && (#[trigger] elapsed_line(lines[i])) is Some
}

/// `least` is the shortest time that an iteration line of `lines` reports.
pub open spec fn is_min_elapsed(lines: Seq<Seq<char>>, least: Duration) -> bool {
    &&& exists|i: int|
        0 <= i < lines.len() && #[trigger] elapsed_nanos(lines[i]) == Some(least.nanos as nat)
    &&& forall|j: int|
        0 <= j < lines.len() && (#[trigger] elapsed_nanos(lines[j])) is Some ==> least.nanos
            <= elapsed_nanos(lines[j]).unwrap()
}

/// Every iteration line of `lines` reports a longer span than a `Duration`
/// can hold.
pub open spec fn all_elapsed_too_long(lines: Seq<Seq<char>>) -> bool {
    forall|j: int|
        0 <= j < lines.len() && (#[trigger] elapsed_nanos(lines[j])) is Some ==> elapsed_nanos(
            lines[j],
        ).unwrap() > u128::MAX
}

/// The shortest time among the iteration lines of a run.
#[derive(Clone, Copy, Debug, PartialEq, Eq, Structural)]
pub enum MinElapsed {
    /// No line is an iteration line.
    NoLine,
    /// There are iteration lines, and every one reports a longer span than
    /// a `Duration` can hold.
    TooLong,
    /// The shortest time.
    Time(Duration),
}

/// `found` is what the iteration lines of `lines` come to.
pub open spec fn is_min_of(lines: Seq<Seq<char>>, found: MinElapsed) -> bool {
    match found {
        MinElapsed::NoLine => !has_elapsed(lines),
        MinElapsed::TooLong => has_elapsed(lines) && all_elapsed_too_long(lines),
        MinElapsed::Time(least) => is_min_elapsed(lines, least),
    }
}

/// The shortest time among the iteration lines of `lines`.
pub fn min_elapsed_time(lines: &Vec<String>) -> (r: MinElapsed)
    ensures
        is_min_of(line_texts(lines@), r),
{
    let ghost texts = line_texts(lines@);
    let mut best = MinElapsed::NoLine;
    let mut i: usize = 0;
    while i < lines.len()
        invariant
            i <= lines.len(),
            texts == line_texts(lines@),
            is_min_of(texts.take(i as int), best),
        decreases lines.len() - i,
    {
        let ghost seen = texts.take(i as int);
        let ghost next = texts.take(i + 1);
        let found = read_elapsed_time_line(lines[i].as_str());
        let ghost old_best = best;
        match found {
            Some(Reading::Time(time)) => {
                match best {
                    MinElapsed::Time(least) => {
                        if time.nanos < least.nanos {
                            best = MinElapsed::Time(time);
                        }
                    },
                    _ => {
                        best = MinElapsed::Time(time);
                    },
                }
            },
            Some(_) => {
                match best {
                    MinElapsed::NoLine => {
                        best = MinElapsed::TooLong;
                    },
                    _ => {},
                }
            },
            None => {},
        }
        proof {
            assert(next[i as int] == lines[i as int]@);
            assert forall|j: int| 0 <= j < i implies next[j] == seen[j] by {}
            let line = next[i as int];
            // What held of the lines seen holds of them among the next.
            assert forall|j: int| 0 <= j < i && (#[trigger] elapsed_shape(next[j])) is Some implies {
                &&& old_best != MinElapsed::NoLine
                &&& old_best == MinElapsed::TooLong ==> elapsed_nanos(next[j]).unwrap() > u128::MAX
                &&& old_best matches MinElapsed::Time(least) ==> least.nanos <= elapsed_nanos(
                    next[j],
                ).unwrap()
            } by {
                assert(elapsed_shape(seen[j]) is Some);
                assert(elapsed_nanos(seen[j]) is Some);
                if old_best == MinElapsed::NoLine {
                    assert(has_elapsed(seen));
                }
            }
            match best {
                MinElapsed::NoLine => {
                    assert(elapsed_shape(line) is None);
                },
                MinElapsed::TooLong => {
                    if elapsed_shape(line) is Some {
                        assert(elapsed_shape(next[i as int]) is Some);
                    } else {
                        let w = choose|w: int|
                            0 <= w < seen.len() && (#[trigger] elapsed_shape(seen[w])) is Some;
                        assert(elapsed_shape(next[w]) is Some);
                    }
                    assert forall|j: int|
                        0 <= j < next.len() && (#[trigger] elapsed_nanos(
                            next[j],
                        )) is Some implies elapsed_nanos(next[j]).unwrap() > u128::MAX by {
                        if j < i {
                            assert(elapsed_shape(next[j]) is Some);
                        }
                    }
                },
                MinElapsed::Time(least) => {
                    if found == Some(Reading::Time(least)) {
                        assert(elapsed_nanos(next[i as int]) == Some(least.nanos as nat));
                    } else {
                        let w = choose|w: int|
                            0 <= w < seen.len() && #[trigger] elapsed_nanos(seen[w]) == Some(
                                least.nanos as nat,
                            );
                        assert(elapsed_nanos(next[w]) == Some(least.nanos as nat));
                    }
                    assert forall|j: int|
                        0 <= j < next.len() && (#[trigger] elapsed_nanos(
                            next[j],
                        )) is Some implies least.nanos <= elapsed_nanos(next[j]).unwrap() by {
                        if j < i {
                            assert(elapsed_shape(next[j]) is Some);
                        }
                    }
                },
            }
        }
        i += 1;
    }
    assert(texts.take(lines.len() as int) =~= texts);
    best
}

/// The shortest time among the iteration lines of `lines`, of which one at
/// least must report a span that a `Duration` can hold.
pub fn demo_min_time(lines: &Vec<String>) -> (least: Duration)
    requires
        has_elapsed_time(line_texts(lines@)),
    ensures
        is_min_elapsed(line_texts(lines@), least),
{
    let ghost texts = line_texts(lines@);
    proof {
        let i = choose|i: int| 0 <= i < texts.len() && (#[trigger] elapsed_line(texts[i])) is Some;
        assert(elapsed_shape(texts[i]) is Some);
        assert(elapsed_nanos(texts[i]) is Some);
        assert(elapsed_nanos(texts[i]).unwrap() <= u128::MAX);
    }
    match min_elapsed_time(lines) {
        MinElapsed::Time(least) => least,
        _ => Duration { nanos: 0 },
    }
}

} // verus!
