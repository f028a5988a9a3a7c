//! Benchmark harness logic: recognising the timing lines a demo prints,
//! reducing a captured run to per-kernel totals, and planning sweeps.

use crate::text::{chars_of, matches_at, parse_u32, unsigned_up_to};
use vstd::prelude::*;

pub mod duration;
pub mod navigate;
pub mod output;
pub mod quant;
pub mod sweep;
pub mod text;

verus! {

/// Which demos a task is asked to run on.
#[derive(Copy, Clone, Eq, PartialEq, Ord, PartialOrd, Hash, Debug, Structural)]
pub enum VersionQuery {
    /// The demo with this major and minor number.
    Version(u32, u32),
    /// Every demo with this major number.
    AllInMajor(u32),
}

/// The number that the argument `s` stands for, where it is a `u32`.
pub open spec fn number_arg(s: Seq<char>) -> Option<u32> {
    match unsigned_up_to(s, u32::MAX as u128) {
        Some(value) => Some(value as u32),
        None => None,
    }
}

/// The major and minor number that the third and fourth of `args` give.
pub open spec fn version_args(args: Seq<String>) -> Option<(u32, u32)> {
    if args.len() >= 4 && number_arg(args[2]@) is Some && number_arg(args[3]@) is Some {
        Some((number_arg(args[2]@).unwrap(), number_arg(args[3]@).unwrap()))
    } else {
        None
    }
}

/// The query that the third and fourth of `args` give: a major number, and
/// then either the word `all` or a minor number.
pub open spec fn version_query_args(args: Seq<String>) -> Option<VersionQuery> {
    if args.len() >= 4 && number_arg(args[2]@) is Some {
        let major = number_arg(args[2]@).unwrap();
        if args[3]@ == "all"@ {
            Some(VersionQuery::AllInMajor(major))
        } else {
            match number_arg(args[3]@) {
                Some(minor) => Some(VersionQuery::Version(major, minor)),
                None => None,
            }
        }
    } else {
        None
    }
}

/// Reads the major and minor number of a demo from the arguments of the
/// program. There is none where fewer than four arguments are given or one
/// of the two is no number.
pub fn get_version(args: &Vec<String>) -> (r: Option<(u32, u32)>)
    ensures
        r == version_args(args@),
{
    if args.len() < 4 {
        return None;
    }
    match parse_u32(args[2].as_str()) {
        Some(major) => match parse_u32(args[3].as_str()) {
            Some(minor) => Some((major, minor)),
            None => None,
        },
        None => None,
    }
}

/// Reads from the arguments of the program which demos are meant. There is
/// no query where fewer than four arguments are given, the major number is
/// no number, or the fourth argument is neither `all` nor a number.
pub fn get_version_query(args: &Vec<String>) -> (r: Option<VersionQuery>)
    ensures
        r == version_query_args(args@),
{
    if args.len() < 4 {
        return None;
    }
    let major = match parse_u32(args[2].as_str()) {
        Some(major) => major,
        None => {
            return None;
        },
    };
    let word = chars_of(args[3].as_str());
    let all = chars_of("all");
    if word.len() == all.len() && matches_at(&word, 0, "all") {
        assert(word@ =~= word@.subrange(0, word.len() as int));
        return Some(VersionQuery::AllInMajor(major));
    }
    proof {
        if args[3]@ == "all"@ {
            assert(word@.subrange(0, all.len() as int) =~= word@);
        }
    }
    match parse_u32(args[3].as_str()) {
        Some(minor) => Some(VersionQuery::Version(major, minor)),
        None => None,
    }
}

} // verus!
