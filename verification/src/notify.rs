//! The human-readable prompt notification: its title and its body, which
//! names the wall-clock interval that just ended in the user's local time.

use vstd::prelude::*;
use vstd::string::StringExecFns;

use crate::text::clock_label_text;
use crate::text::day_seconds;

verus! {

/// The notification title.
pub open spec fn prompt_title_text() -> Seq<char> {
    "Time Tracker"@
}

/// The body of a prompt notification for the interval of `interval_minutes`
/// minutes starting at epoch second `start`, rendered in local time under a
/// fixed offset from UTC.
pub open spec fn prompt_body_text(start: int, interval_minutes: u64, utc_offset_seconds: int) -> Seq<
    char,
> {
    "What did you work on "@ + clock_label_text(day_seconds(start, utc_offset_seconds)) + " - "@
        + clock_label_text(day_seconds(start + interval_minutes * 60, utc_offset_seconds)) + "?"@
}

/// Builds the prompt body from the two rendered wall-clock labels.
pub fn prompt_notification_body(start_label: &str, end_label: &str) -> (r: String)
    ensures
        r@ == "What did you work on "@ + start_label@ + " - "@ + end_label@ + "?"@,
{
    let mut s: String = "What did you work on ".to_owned();
    s.append(start_label);
    s.append(" - ");
    s.append(end_label);
    s.append("?");
    proof {
        assert(s@ =~= "What did you work on "@ + start_label@ + " - "@ + end_label@ + "?"@);
    }
    s
}

} // verus!
