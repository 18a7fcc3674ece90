//! Rendering: a template and the live metrics give the title and the score
//! entries of one moment.

use crate::style::{parse_colored_text, parse_styled, StyledText};
use crate::template::Template;
use crate::text::{decimal, decimal2, decimal_string, push_char, push_decimal, replace, replace_all};
use vstd::prelude::*;
use vstd::string::StringExecFns;

verus! {

/// The placeholder for the number of players online.
pub const PLACEHOLDER_ONLINE: &'static str = "%online%";

/// The placeholder for the ticks per second.
pub const PLACEHOLDER_TPS: &'static str = "%tps%";

/// The placeholder for the uptime.
pub const PLACEHOLDER_UPTIME: &'static str = "%uptime%";

/// The prefix of every entry name; the line's index follows it.
pub const ENTRY_PREFIX: &'static str = "line_";

/// The live metrics of one moment.
#[derive(Clone, Copy, Debug, PartialEq, Eq)]
pub struct Metrics {
    /// How many players are online.
    pub online: u64,
    /// The ticks per second, in hundredths of a tick.
    pub tps_hundredths: u64,
    /// How long the process has run, in seconds.
    pub uptime_secs: u64,
}

/// One row of the sidebar. Rows are shown by falling score.
#[derive(Clone, Debug, PartialEq, Eq)]
pub struct ScoreLine {
    pub entry_name: String,
    pub score: i32,
    pub text: StyledText,
}

/// The sidebar of one moment: the styled title and the rows, top to bottom.
#[derive(Clone, Debug, PartialEq, Eq)]
pub struct Rendered {
    pub title: StyledText,
    pub lines: Vec<ScoreLine>,
}

/// An uptime of `secs` seconds in days, hours and minutes; the days, and
/// without days the hours, are left out where they are zero.
pub open spec fn uptime_text(secs: nat) -> Seq<char> {
    let days = secs / 86_400;
    let hours = (secs % 86_400) / 3_600;
    let minutes = (secs % 3_600) / 60;
    if days > 0 {
        decimal(days) + "d "@ + decimal(hours) + "h "@ + decimal(minutes) + "m"@
    } else if hours > 0 {
        decimal(hours) + "h "@ + decimal(minutes) + "m"@
    } else {
        decimal(minutes) + "m"@
    }
}

/// Formats an uptime in days, hours and minutes.
pub fn format_uptime(total_secs: u64) -> (r: String)
    ensures
        r@ == uptime_text(total_secs as nat),
{
    let days = total_secs / 86_400;
    let hours = (total_secs % 86_400) / 3_600;
    let minutes = (total_secs % 3_600) / 60;
    let mut r = String::new();
    if days > 0 {
        push_decimal(&mut r, days);
        r.append("d ");
    }
    if days > 0 || hours > 0 {
        push_decimal(&mut r, hours);
        r.append("h ");
    }
    push_decimal(&mut r, minutes);
    r.append("m");
    assert(r@ =~= uptime_text(total_secs as nat));
    r
}

/// A number of hundredths with two decimal places.
pub open spec fn hundredths_text(hundredths: nat) -> Seq<char> {
    decimal(hundredths / 100) + "."@ + decimal2(hundredths % 100)
}

/// Formats a number given in hundredths with two decimal places.
pub fn format_hundredths(hundredths: u64) -> (r: String)
    ensures
        r@ == hundredths_text(hundredths as nat),
{
    let mut r = decimal_string(hundredths / 100);
    r.append(".");
    let frac = hundredths % 100;
    if frac < 10 {
        push_char(&mut r, '0');
    }
    push_decimal(&mut r, frac);
    proof {
        reveal_strlit(".");
    }
    assert(r@ =~= hundredths_text(hundredths as nat));
    r
}

/// `line` with the three placeholders replaced by the metrics: first the
/// online count, then the ticks per second, then the uptime.
pub open spec fn substituted(line: Seq<char>, metrics: Metrics) -> Seq<char> {
    replace_all(
        replace_all(
            replace_all(line, PLACEHOLDER_ONLINE@, decimal(metrics.online as nat)),
            PLACEHOLDER_TPS@,
            hundredths_text(metrics.tps_hundredths as nat),
        ),
        PLACEHOLDER_UPTIME@,
        uptime_text(metrics.uptime_secs as nat),
    )
}

/// Replaces the placeholders of one template line by the metrics.
pub fn substitute(line: &str, metrics: &Metrics) -> (r: String)
    ensures
        r@ == substituted(line@, *metrics),
{
    let online = decimal_string(metrics.online);
    let tps = format_hundredths(metrics.tps_hundredths);
    let uptime = format_uptime(metrics.uptime_secs);
    let first = replace(line, PLACEHOLDER_ONLINE, online.as_str());
    let second = replace(first.as_str(), PLACEHOLDER_TPS, tps.as_str());
    replace(second.as_str(), PLACEHOLDER_UPTIME, uptime.as_str())
}

/// The name of the entry for the line at `index`.
pub open spec fn entry_name_of(index: nat) -> Seq<char> {
    ENTRY_PREFIX@ + decimal(index)
}

/// The score of the line at `index` among `count` lines. The first line has
/// the highest score, the last has score one.
pub open spec fn score_of(count: nat, index: nat) -> int {
    count - index
}

/// Whether `r` is what `template` shows under `metrics`.
pub open spec fn renders(template: Template, metrics: Metrics, r: Rendered) -> bool {
    &&& r.title@ == parse_styled(substituted(template.title@, metrics))
    &&& r.lines@.len() == template.lines@.len()
    &&& forall|i: int|
        0 <= i < r.lines@.len() ==> {
            &&& (#[trigger] r.lines@[i]).entry_name@ == entry_name_of(i as nat)
            &&& r.lines@[i].score == score_of(r.lines@.len(), i as nat)
            &&& r.lines@[i].text@ == parse_styled(substituted(template.lines@[i]@, metrics))
        }
}

/// Renders a template under the given metrics: the placeholders are replaced
/// in the title and in every line, and the results read as colour markup.
/// There is one entry for each line, in the template's order, with the
/// scores falling from the number of lines down to one.
pub fn render(template: &Template, metrics: &Metrics) -> (r: Rendered)
    requires
        template.lines@.len() <= i32::MAX,
    ensures
        renders(*template, *metrics, r),
        forall|i: int, j: int|
            0 <= i < j < r.lines@.len() ==> (#[trigger] r.lines@[i]).score > (
            #[trigger] r.lines@[j]).score,
{
    let title_text = substitute(template.title.as_str(), metrics);
    let title = parse_colored_text(title_text.as_str());
    let count: usize = template.lines.len();
    let mut lines: Vec<ScoreLine> = Vec::new();
    let mut score: i32 = count as i32;
    let mut index: usize = 0;
    while index < count
        invariant
            index <= count,
            count == template.lines@.len(),
            count <= i32::MAX,
            score == count - index,
            lines@.len() == index,
            forall|i: int|
                0 <= i < index ==> {
                    &&& (#[trigger] lines@[i]).entry_name@ == entry_name_of(i as nat)
                    &&& lines@[i].score == score_of(count as nat, i as nat)
                    &&& lines@[i].text@ == parse_styled(
                        substituted(template.lines@[i]@, *metrics),
                    )
                },
        decreases count - index,
    {
        let mut entry_name = String::from_str(ENTRY_PREFIX);
        push_decimal(&mut entry_name, index as u64);
        let text = substitute(template.lines[index].as_str(), metrics);
        lines.push(ScoreLine { entry_name, score, text: parse_colored_text(text.as_str()) });
        score -= 1;
        index += 1;
    }
    Rendered { title, lines }
}

} // verus!
