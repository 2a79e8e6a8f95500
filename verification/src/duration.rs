//! Time-to-live values as compact durations.

use vstd::prelude::*;
use crate::text::{decimal, pad_left, push_decimal, push_two_digits};

verus! {

/// A number in a field of two digits, zero-filled.
pub open spec fn two_digits(n: nat) -> Seq<char> {
    pad_left(decimal(n), 2, '0')
}

/// The compact duration of `seconds`: the largest unit that is not zero comes
/// first, unpadded, and each smaller unit follows. Minutes and seconds that
/// follow a larger unit take two digits; the hours after a day count do not.
pub open spec fn duration_text(seconds: nat) -> Seq<char> {
    if seconds < 60 {
        decimal(seconds) + seq!['s']
    } else if seconds < 3600 {
        decimal(seconds / 60) + seq!['m'] + two_digits(seconds % 60) + seq!['s']
    } else if seconds < 86400 {
        decimal(seconds / 3600) + seq!['h'] + two_digits((seconds % 3600) / 60) + seq!['m']
            + two_digits(seconds % 60) + seq!['s']
    } else {
        decimal(seconds / 86400) + seq!['d'] + decimal((seconds % 86400) / 3600) + seq!['h']
            + two_digits((seconds % 3600) / 60) + seq!['m'] + two_digits(seconds % 60) + seq!['s']
    }
}

/// What stands in the time-to-live field: the compact duration, or the bare
/// count of seconds.
pub open spec fn ttl_text(seconds: nat, format_seconds: bool) -> Seq<char> {
    if format_seconds {
        duration_text(seconds)
    } else {
        decimal(seconds)
    }
}

/// Renders `seconds` as a compact duration.
pub fn render_duration(seconds: u32) -> (out: String)
    ensures
        out@ == duration_text(seconds as nat),
{
    let mut out = String::new();
    if seconds < 60 {
        push_decimal(&mut out, seconds);
        out.push('s');
    } else if seconds < 3600 {
        push_decimal(&mut out, seconds / 60);
        out.push('m');
        push_two_digits(&mut out, seconds % 60);
        out.push('s');
    } else if seconds < 86400 {
        push_decimal(&mut out, seconds / 3600);
        out.push('h');
        push_two_digits(&mut out, (seconds % 3600) / 60);
        out.push('m');
        push_two_digits(&mut out, seconds % 60);
        out.push('s');
    } else {
        push_decimal(&mut out, seconds / 86400);
        out.push('d');
        push_decimal(&mut out, (seconds % 86400) / 3600);
        out.push('h');
        push_two_digits(&mut out, (seconds % 3600) / 60);
        out.push('m');
        push_two_digits(&mut out, seconds % 60);
        out.push('s');
    }
    assert(out@ =~= duration_text(seconds as nat));
    out
}

/// Renders `seconds` as a bare decimal number.
pub fn render_seconds(seconds: u32) -> (out: String)
    ensures
        out@ == decimal(seconds as nat),
{
    let mut out = String::new();
    push_decimal(&mut out, seconds);
    assert(out@ =~= decimal(seconds as nat));
    out
}

} // verus!
