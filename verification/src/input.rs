//! Reading what the user hands over: the time between two generations and
//! the positions of the cells that start out live.

use crate::text::{
    duration_from_millis, is_trim, millis, number, parse_u64, parse_usize, pieces, split_commas,
    trim, trimmed,
};
use std::time::Duration;
use vstd::prelude::*;
use vstd::std_specs::iter::IteratorSpec;

verus! {

/// The span of time that a text names: the number it writes, taken as
/// milliseconds.
pub open spec fn time_named(text: Seq<char>) -> Option<Duration> {
    match number(text, u64::MAX as nat) {
        Some(ms) => Some(millis(ms as u64)),
        None => None,
    }
}

/// The time between two generations that a list of arguments asks for: what
/// the second argument names.
pub open spec fn time_asked(args: Seq<String>) -> Option<Duration> {
    if args.len() < 2 {
        None
    } else {
        time_named(args[1]@)
    }
}

/// The span of time that a text names: the text is read as an unsigned
/// number of milliseconds. There is none when the text is no such number or
/// the number does not fit in 64 bits.
pub fn read_time(text: &str) -> (span: Option<Duration>)
    ensures
        span == time_named(text@),
{
    match parse_u64(text) {
        None => None,
        Some(ms) => Some(duration_from_millis(ms)),
    }
}

/// The time between two generations, from the list of the program's
/// arguments: the first is skipped, the second is read as a number of
/// milliseconds. There is none when there are fewer than two arguments or
/// the second is no such number.
pub fn time_of_args(args: &Vec<String>) -> (span: Option<Duration>)
    ensures
        span == time_asked(args@),
{
    if args.len() < 2 {
        None
    } else {
        read_time(args[1].as_str())
    }
}

/// The time between two generations, from the arguments of the program as
/// they come one by one: the first is skipped, the second is read as a
/// number of milliseconds. There is none when there are fewer than two
/// arguments or the second is no such number. The result is stated for a
/// source of arguments that hands out what it holds and then ends; for a
/// list at hand, `time_of_args` states it outright.
pub fn parse_time(mut args: impl Iterator<Item = String>) -> (span: Option<Duration>)
    ensures
        args.obeys_prophetic_iter_laws() ==> span == time_asked(args.remaining()),
{
    match args.next() {
        None => None,
        Some(_) => match args.next() {
            None => None,
            Some(second) => read_time(second.as_str()),
        },
    }
}

/// The position that a text names: the text has the form of a row, a comma
/// and a column, both unsigned numbers that fit a `usize`. A text of any
/// other form names none.
pub open spec fn coords_named(text: Seq<char>) -> Option<(usize, usize)> {
    let parts = pieces(text);
    if parts.len() == 2 {
        match (number(parts[0], usize::MAX as nat), number(parts[1], usize::MAX as nat)) {
            (Some(row), Some(col)) => Some((row as usize, col as usize)),
            _ => None,
        }
    } else {
        None
    }
}

/// The position that an already trimmed text names: the text is cut at its
/// commas, and when that gives exactly two pieces and both are unsigned
/// numbers, they are row and column. There is none for any other text.
pub fn read_coords(text: &str) -> (coords: Option<(usize, usize)>)
    ensures
        coords == coords_named(text@),
{
    let parts = split_commas(text);
    if parts.len() != 2 {
        return None;
    }
    match parse_usize(parts[0]) {
        None => None,
        Some(row) => match parse_usize(parts[1]) {
            None => None,
            Some(col) => Some((row, col)),
        },
    }
}

/// The position that a line of input names, as row and column: the line
/// without the whitespace around it has the form of a row, a comma and a
/// column, both unsigned numbers. There is none for a line of any other
/// form. Of a line with nothing to trim the result is stated without the
/// trimming.
pub fn parse_to_tuple(input: &str) -> (coords: Option<(usize, usize)>)
    ensures
        coords == coords_named(trimmed(input@)),
        is_trim(input@) ==> coords == coords_named(input@),
{
    read_coords(trim(input))
}

} // verus!
