//! The running time of the pipeline as text.

use vstd::prelude::*;
use crate::text::{decimal_text, push_decimal, push_two_digits, two_digit_text};

verus! {

/// A span of seconds as days, hours, minutes and seconds: the days in full,
/// the other three with two digits.
pub open spec fn elapsed_text(seconds: nat) -> Seq<char> {
    decimal_text(seconds / 86_400) + seq!['d', ' '] + two_digit_text((seconds % 86_400) / 3600)
        + seq!['h', ' '] + two_digit_text((seconds % 3600) / 60) + seq!['m', ' ']
        + two_digit_text(seconds % 60) + seq!['s']
}

/// Formats a span of seconds as days, hours, minutes and seconds, such as
/// `1d 02h 03m 04s`.
pub fn format_elapsed_time(seconds: u64) -> (text: String)
    ensures
        text@ == elapsed_text(seconds as nat),
{
    let days = seconds / 86_400;
    let hours = (seconds % 86_400) / 3600;
    let minutes = (seconds % 3600) / 60;
    let secs = seconds % 60;
    proof {
        reveal_strlit("d ");
        reveal_strlit("h ");
        reveal_strlit("m ");
        reveal_strlit("s");
        assert("d "@ =~= seq!['d', ' ']);
        assert("h "@ =~= seq!['h', ' ']);
        assert("m "@ =~= seq!['m', ' ']);
        assert("s"@ =~= seq!['s']);
    }
    let mut text = String::new();
    push_decimal(&mut text, days);
    text.append("d ");
    push_two_digits(&mut text, hours);
    text.append("h ");
    push_two_digits(&mut text, minutes);
    text.append("m ");
    push_two_digits(&mut text, secs);
    text.append("s");
    proof {
        assert(text@ =~= elapsed_text(seconds as nat));
    }
    text
}

} // verus!
