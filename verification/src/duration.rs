//! Spans of time at nanosecond resolution, and the reading of a decimal
//! count of milliseconds as such a span.

use crate::text::{
    chars_of, digit_value, digits_end, digits_value, fraction_digits, is_decimal, is_digit,
    parse_digits, scan_digits, whole_digits,
};
use vstd::prelude::*;

verus! {

/// A span of time, held as a whole number of nanoseconds.
#[derive(Clone, Copy, Debug, PartialEq, Eq, Structural)]
pub struct Duration {
    pub nanos: u128,
}

/// Nanoseconds in one millisecond.
pub const NANOS_PER_MILLI: u128 = 1_000_000;

/// Nanoseconds in one second.
pub const NANOS_PER_SEC: u128 = 1_000_000_000;

/// The most whole milliseconds that a `Duration` can hold.
pub const MAX_WHOLE_MILLIS: u128 = 340282366920938463463374607431768;

impl Duration {
    /// The empty span.
    pub fn zero() -> (d: Duration)
        ensures
            d.nanos == 0,
    {
        Duration { nanos: 0 }
    }

    /// The span of `nanos` nanoseconds.
    pub fn from_nanos(nanos: u128) -> (d: Duration)
        ensures
            d.nanos == nanos,
    {
        Duration { nanos }
    }

    /// The span of `millis` milliseconds.
    pub fn from_millis(millis: u64) -> (d: Duration)
        ensures
            d.nanos == millis * NANOS_PER_MILLI,
    {
        Duration { nanos: millis as u128 * NANOS_PER_MILLI }
    }

    /// The span in nanoseconds.
    pub fn as_nanos(&self) -> (n: u128)
        ensures
            n == self.nanos,
    {
        self.nanos
    }

    /// The whole milliseconds in the span.
    pub fn as_millis(&self) -> (n: u128)
        ensures
            n == self.nanos / NANOS_PER_MILLI,
    {
        self.nanos / NANOS_PER_MILLI
    }

    /// The whole seconds in the span.
    pub fn as_secs(&self) -> (n: u128)
        ensures
            n == self.nanos / NANOS_PER_SEC,
    {
        self.nanos / NANOS_PER_SEC
    }

    /// The nanoseconds of the span beyond its whole seconds.
    pub fn subsec_nanos(&self) -> (n: u32)
        ensures
            n == self.nanos % NANOS_PER_SEC,
    {
        (self.nanos % NANOS_PER_SEC) as u32
    }

    /// The sum of two spans, unless it cannot be held.
    pub fn checked_add(self, other: Duration) -> (r: Option<Duration>)
        ensures
            r == if self.nanos + other.nanos <= u128::MAX {
                Some(Duration { nanos: (self.nanos + other.nanos) as u128 })
            } else {
                None
            },
    {
        match self.nanos.checked_add(other.nanos) {
            Some(nanos) => Some(Duration { nanos }),
            None => None,
        }
    }

    /// What is left of this span after `other`, unless `other` is the longer.
    pub fn checked_sub(self, other: Duration) -> (r: Option<Duration>)
        ensures
            r == if other.nanos <= self.nanos {
                Some(Duration { nanos: (self.nanos - other.nanos) as u128 })
            } else {
                None
            },
    {
        if other.nanos <= self.nanos {
            Some(Duration { nanos: self.nanos - other.nanos })
        } else {
            None
        }
    }
}

/// The unit and bracket that close every reported measurement.
pub open spec fn millis_unit() -> Seq<char> {
    "ms]"@
}

/// The digit at place `i` after the point, 0 beyond the digits written.
pub open spec fn fraction_digit(frac: Seq<char>, i: int) -> nat {
    if 0 <= i < frac.len() {
        digit_value(frac[i])
    } else {
        0
    }
}

/// The nanoseconds that the digits after the point of a millisecond count
/// stand for, to the nearest nanosecond (a half rounds up).
pub open spec fn fraction_nanos(frac: Seq<char>) -> nat {
    fraction_digit(frac, 0) * 100_000 + fraction_digit(frac, 1) * 10_000 + fraction_digit(frac, 2)
        * 1_000 + fraction_digit(frac, 3) * 100 + fraction_digit(frac, 4) * 10 + fraction_digit(
        frac,
        5,
    ) + if fraction_digit(frac, 6) >= 5 {
        1nat
    } else {
        0nat
    }
}

/// The nanoseconds that a decimal count of milliseconds stands for.
pub open spec fn millis_to_nanos(number: Seq<char>) -> nat {
    digits_value(whole_digits(number)) * 1_000_000 + fraction_nanos(fraction_digits(number))
}

/// What the text of a number comes to when read as a decimal count of
/// milliseconds.
#[derive(Clone, Copy, Debug, PartialEq, Eq, Structural)]
pub enum Reading {
    /// The text is no decimal.
    NotDecimal,
    /// The text is a decimal that stands for a longer span than a
    /// `Duration` can hold.
    TooLong,
    /// The span that the text stands for.
    Time(Duration),
}

/// What `number` comes to when read as a decimal count of milliseconds.
pub open spec fn reading(number: Seq<char>) -> Reading {
    if !is_decimal(number) {
        Reading::NotDecimal
    } else if millis_to_nanos(number) > u128::MAX {
        Reading::TooLong
    } else {
        Reading::Time(Duration { nanos: millis_to_nanos(number) as u128 })
    }
}

/// The span that `number` denotes when read as a decimal count of
/// milliseconds: none where it is no decimal, or denotes more than a
/// `Duration` can hold.
pub open spec fn measurement(number: Seq<char>) -> Option<Duration> {
    match reading(number) {
        Reading::Time(time) => Some(time),
        _ => None,
    }
}

/// The value of the digit at place `i` after the point that stands at
/// index `point`.
fn fraction_digit_at(number: &Vec<char>, point: usize, i: usize) -> (d: u128)
    requires
        point < number.len(),
        i < 7,
        forall|j: int| point < j < number.len() ==> is_digit(#[trigger] number@[j]),
    ensures
        d == fraction_digit(number@.skip(point + 1), i as int),
        d <= 9,
{
    if number.len() - point - 1 > i {
        let c = number[point + 1 + i];
        assert(number@.skip(point + 1)[i as int] == c);
        (c as u32 - '0' as u32) as u128
    } else {
        0
    }
}

/// Reads a decimal count of milliseconds, and tells a text that is no
/// decimal from one that stands for too long a span.
pub fn read_millis(number: &Vec<char>) -> (r: Reading)
    ensures
        r == reading(number@),
{
    let n = number.len();
    let k = scan_digits(number, 0);
    if k == 0 {
        return Reading::NotDecimal;
    }
    let mut frac: u128 = 0;
    if k < n {
        if number[k] != '.' || n - k < 2 {
            return Reading::NotDecimal;
        }
        let e = scan_digits(number, k + 1);
        if e != n {
            return Reading::NotDecimal;
        }
        let d0 = fraction_digit_at(number, k, 0);
        let d1 = fraction_digit_at(number, k, 1);
        let d2 = fraction_digit_at(number, k, 2);
        let d3 = fraction_digit_at(number, k, 3);
        let d4 = fraction_digit_at(number, k, 4);
        let d5 = fraction_digit_at(number, k, 5);
        let d6 = fraction_digit_at(number, k, 6);
        frac = d0 * 100_000 + d1 * 10_000 + d2 * 1_000 + d3 * 100 + d4 * 10 + d5;
        if d6 >= 5 {
            frac = frac + 1;
        }
    }
    assert(is_decimal(number@));
    assert(frac == fraction_nanos(fraction_digits(number@)));
    assert(number@.subrange(0, k as int) == whole_digits(number@));
    assert forall|j: int| 0 <= j < k implies is_digit(
        #[trigger] number@.subrange(0, k as int)[j],
    ) by {
        assert(number@.subrange(0, k as int)[j] == number@[j]);
    }
    match parse_digits(number, 0, k, MAX_WHOLE_MILLIS) {
        None => Reading::TooLong,
        Some(whole) => {
            match (whole * NANOS_PER_MILLI).checked_add(frac) {
                Some(nanos) => Reading::Time(Duration { nanos }),
                None => Reading::TooLong,
            }
        },
    }
}

/// Reads a decimal count of milliseconds.
pub fn parse_millis(number: &Vec<char>) -> (r: Option<Duration>)
    ensures
        r == measurement(number@),
{
    match read_millis(number) {
        Reading::Time(time) => Some(time),
        _ => None,
    }
}

/// Reads a decimal count of milliseconds from text.
pub fn parse_millis_str(number: &str) -> (r: Option<Duration>)
    ensures
        r == measurement(number@),
{
    let v = chars_of(number);
    parse_millis(&v)
}

} // verus!
