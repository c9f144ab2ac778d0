//! Activity classification and relative-time description: a session is
//! active when it was updated less than five minutes before the current
//! moment, and its age is rendered as a short human-readable phrase.

use crate::digits::dec_digits;
use crate::digits::u64_to_decimal;
use vstd::prelude::*;

verus! {

/// A session updated at `updated_at_ms` is active at `now_ms` when strictly
/// less than five minutes (300000 ms) have elapsed. A timestamp in the
/// future (negative elapsed time) counts as active.
pub open spec fn is_active_spec(updated_at_ms: int, now_ms: int) -> bool {
    now_ms - updated_at_ms < 5 * 60 * 1000
}

/// Classify one timestamp against the invocation time.
pub fn is_active(updated_at_ms: i64, now_ms: i64) -> (active: bool)
    ensures
        active == is_active_spec(updated_at_ms as int, now_ms as int),
{
    let diff: i128 = (now_ms as i128) - (updated_at_ms as i128);
    diff < 300000
}

/// The phrase describing how long ago `updated_at_ms` was, seen from
/// `now_ms`. Each count divides the total elapsed milliseconds directly
/// (truncating), not a remainder left by the larger unit.
pub open spec fn relative_time_spec(updated_at_ms: int, now_ms: int) -> Seq<char> {
    let diff = now_ms - updated_at_ms;
    if diff < 0 {
        "just now"@
    } else {
        let secs = diff / 1000;
        let mins = secs / 60;
        let hours = mins / 60;
        let days = hours / 24;
        if secs < 60 {
            if secs <= 5 {
                "just now"@
            } else {
                dec_digits(secs as nat) + " seconds ago"@
            }
        } else if mins < 60 {
            if mins == 1 {
                "1 minute ago"@
            } else {
                dec_digits(mins as nat) + " minutes ago"@
            }
        } else if hours < 24 {
            if hours == 1 {
                "1 hour ago"@
            } else {
                dec_digits(hours as nat) + " hours ago"@
            }
        } else {
            if days == 1 {
                "1 day ago"@
            } else {
                dec_digits(days as nat) + " days ago"@
            }
        }
    }
}

/// Render the age of one timestamp, seen from the invocation time.
pub fn format_relative_time(updated_at_ms: i64, now_ms: i64) -> (s: String)
    ensures
        s@ == relative_time_spec(updated_at_ms as int, now_ms as int),
{
    let diff: i128 = (now_ms as i128) - (updated_at_ms as i128);
    if diff < 0 {
        return "just now".to_owned();
    }
    assert(diff <= u64::MAX as i128);
    let diff_ms: u64 = diff as u64;
    let diff_secs: u64 = diff_ms / 1000;
    let diff_mins: u64 = diff_secs / 60;
    let diff_hours: u64 = diff_mins / 60;
    let diff_days: u64 = diff_hours / 24;
    if diff_secs < 60 {
        if diff_secs <= 5 {
            "just now".to_owned()
        } else {
            let mut s = u64_to_decimal(diff_secs);
            s.append(" seconds ago");
            s
        }
    } else if diff_mins < 60 {
        if diff_mins == 1 {
            "1 minute ago".to_owned()
        } else {
            let mut s = u64_to_decimal(diff_mins);
            s.append(" minutes ago");
            s
        }
    } else if diff_hours < 24 {
        if diff_hours == 1 {
            "1 hour ago".to_owned()
        } else {
            let mut s = u64_to_decimal(diff_hours);
            s.append(" hours ago");
            s
        }
    } else {
        if diff_days == 1 {
            "1 day ago".to_owned()
        } else {
            let mut s = u64_to_decimal(diff_days);
            s.append(" days ago");
            s
        }
    }
}

} // verus!
