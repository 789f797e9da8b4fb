//! The wall clock as the monitor reads it, and clock readings as text.

use std::time::{SystemTime, UNIX_EPOCH};
use vstd::prelude::*;

use crate::text::{push_two_digits, two_digits};

verus! {

/// Reads the system clock with `SystemTime::now` and counts the whole
/// seconds since `UNIX_EPOCH` with `duration_since` and `as_secs`. Trusted,
/// and nothing is claimed of the reading: it is `None` where the clock
/// stands before the epoch.
#[verifier::external_body]
fn seconds_since_epoch() -> (seconds: Option<u64>) {
    match SystemTime::now().duration_since(UNIX_EPOCH) {
        Ok(elapsed) => Some(elapsed.as_secs()),
        Err(_) => None,
    }
}

/// The wall-clock time in whole seconds since the Unix epoch, for stamping
/// a round at dispatch; `None` where the system clock stands before the
/// epoch.
pub fn current_timestamp() -> (timestamp: Option<u64>) {
    seconds_since_epoch()
}

/// A clock reading of `total` seconds: hours, minutes and seconds, each at
/// least two digits wide, separated by colons. Hours are not wrapped at a
/// day.
pub open spec fn clock_text(total: nat) -> Seq<char> {
    two_digits(total / 3600) + seq![':'] + two_digits((total % 3600) / 60) + seq![':']
        + two_digits(total % 60)
}

/// Formats a count of seconds as `hh:mm:ss` for an axis label.
pub fn format_seconds(total: u64) -> (text: String)
    ensures
        text@ == clock_text(total as nat),
{
    let hours: u64 = total / 3600;
    let minutes: u64 = (total % 3600) / 60;
    let seconds: u64 = total % 60;
    let mut text = String::new();
    push_two_digits(&mut text, hours as u128);
    text.push(':');
    push_two_digits(&mut text, minutes as u128);
    text.push(':');
    push_two_digits(&mut text, seconds as u128);
    assert(text@ =~= clock_text(total as nat));
    text
}

} // verus!
