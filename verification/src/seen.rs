//! How long ago a player was seen, in words.

use crate::text::{decimal, push_decimal};
use vstd::prelude::*;
use vstd::string::StringExecFns;

verus! {

/// A duration of `secs` seconds in days, hours, minutes and seconds; the
/// leading units that are zero are left out, the seconds never.
pub open spec fn duration_text(secs: nat) -> Seq<char> {
    let days = secs / 86_400;
    let hours = (secs % 86_400) / 3_600;
    let minutes = (secs % 3_600) / 60;
    let seconds = secs % 60;
    if days > 0 {
        decimal(days) + "d "@ + decimal(hours) + "h "@ + decimal(minutes) + "m "@ + decimal(seconds)
            + "s"@
    } else if hours > 0 {
        decimal(hours) + "h "@ + decimal(minutes) + "m "@ + decimal(seconds) + "s"@
    } else if minutes > 0 {
        decimal(minutes) + "m "@ + decimal(seconds) + "s"@
    } else {
        decimal(seconds) + "s"@
    }
}

/// Formats a duration, given in whole seconds, in days, hours, minutes and
/// seconds.
pub fn format_duration(total_secs: u64) -> (r: String)
    ensures
        r@ == duration_text(total_secs as nat),
{
    let days = total_secs / 86_400;
    let hours = (total_secs % 86_400) / 3_600;
    let minutes = (total_secs % 3_600) / 60;
    let seconds = total_secs % 60;
    let mut r = String::new();
    if days > 0 {
        push_decimal(&mut r, days);
        r.append("d ");
    }
    if days > 0 || hours > 0 {
        push_decimal(&mut r, hours);
        r.append("h ");
    }
    if days > 0 || hours > 0 || minutes > 0 {
        push_decimal(&mut r, minutes);
        r.append("m ");
    }
    push_decimal(&mut r, seconds);
    r.append("s");
    assert(r@ =~= duration_text(total_secs as nat));
    r
}

} // verus!
