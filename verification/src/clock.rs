//! The wall clock, as far as sessions need it: the local time of day with
//! which relayed messages are stamped.

use vstd::prelude::*;

verus! {

/// Whether `c` is one of the ten decimal digits.
pub open spec fn is_digit(c: char) -> bool {
    '0' <= c <= '9'
}

/// Whether `s` has the shape `HH:MM:SS`: two digits, a colon, two digits,
/// a colon, two digits.
pub open spec fn is_clock_time(s: Seq<char>) -> bool {
    &&& s.len() == 8
    &&& is_digit(s[0])
    &&& is_digit(s[1])
    &&& s[2] == ':'
    &&& is_digit(s[3])
    &&& is_digit(s[4])
    &&& s[5] == ':'
    &&& is_digit(s[6])
    &&& is_digit(s[7])
}

/// The local time of day, from `chrono::Local::now()` formatted with
/// `"%H:%M:%S"`. Trusted: the text has the shape `HH:MM:SS`. Which time it
/// shows depends on the clock and the time zone of the machine, so nothing
/// else is claimed, and two calls may differ.
#[verifier::external_body]
pub(crate) fn local_clock_time() -> (time: String)
    ensures
        is_clock_time(time@),
{
    chrono::Local::now().format("%H:%M:%S").to_string()
}

} // verus!
