//! What the simple commands answer.
//!
//! A command's executor computes the reply; sending it is the caller's part.

use crate::style::NamedColor;
use crate::text::{decimal, parse_u32, parsed_u32, push_decimal, replace, replace_all, trim, trim_string};
use vstd::prelude::*;
use vstd::string::StringExecFns;

verus! {

/// A reply to a command: one line of text in one colour.
#[derive(Clone, Debug, PartialEq, Eq)]
pub struct Reply {
    pub text: String,
    pub color: NamedColor,
}

/// What the credits command answers.
pub const CREDITS_TEXT: &'static str = "Made by Jinx, with a lot of love \u{2764}";

/// The executor of the credits command.
#[derive(Clone, Copy, Debug, PartialEq, Eq)]
pub struct CreditsExecutor;

impl CreditsExecutor {
    /// The reply: the credits, in yellow.
    pub fn reply(&self) -> (r: Reply)
        ensures
            r.text@ == CREDITS_TEXT@,
            r.color == NamedColor::Yellow,
    {
        Reply { text: String::from_str(CREDITS_TEXT), color: NamedColor::Yellow }
    }
}

/// The executor of the credits command.
pub fn jinx_credits_command() -> CreditsExecutor {
    CreditsExecutor
}

/// How many pages the help has.
pub const PAGE_COUNT: u32 = 11;

/// How many commands the help announces.
pub const COMMAND_COUNT: u32 = 53;

/// What follows the number of commands in the header of the help.
pub const HELP_HEADER_TAIL: &'static str =
    " commands loaded.\nMade by Jinx, with a lot of love <3\n";

/// Page 1 of the help.
pub const HELP_PAGE_1: &'static str = "Commands (1/11):\n/tps\n/uptime\n/seen <player>\n/whois <player>\n/clearinv [player]";

/// Page 2 of the help.
pub const HELP_PAGE_2: &'static str = "Commands (2/11):\n/rules\n/discord\n/website\n/store\n/socials";

/// Page 3 of the help.
pub const HELP_PAGE_3: &'static str = "Commands (3/11):\n/jinx reload\n/jinx health\n/jinx credits\n/jinx help <page>\n/coords";

/// Page 4 of the help.
pub const HELP_PAGE_4: &'static str = "Commands (4/11):\n/gmc [player]\n/gms [player]\n/gmsp [player]\n/gma [player]\n/creative [player]";

/// Page 5 of the help.
pub const HELP_PAGE_5: &'static str = "Commands (5/11):\n/survival [player]\n/spectator [player]\n/adventure [player]\n/s [player]\n/c [player]";

/// Page 6 of the help.
pub const HELP_PAGE_6: &'static str = "Commands (6/11):\n/a [player]\n/sp [player]\n/heal [player]\n/feed [player]\n/fly [player]";

/// Page 7 of the help.
pub const HELP_PAGE_7: &'static str = "Commands (7/11):\n/god [player]\n/speed <walk|fly> <value> [player]\n/suicide\n/ping [player]\n/near";

/// Page 8 of the help.
pub const HELP_PAGE_8: &'static str = "Commands (8/11):\n/playtime [player]\n/me\n/clearchat\n/createkit <name> <delay>\n/kit <name>";

/// Page 9 of the help.
pub const HELP_PAGE_9: &'static str = "Commands (9/11):\n/day\n/night\n/rain\n/clear\n/thunder";

/// Page 10 of the help.
pub const HELP_PAGE_10: &'static str = "Commands (10/11):\n/calc <expression>\n/online\n/flip\n/whoami\n/pl";

/// Page 11 of the help.
pub const HELP_PAGE_11: &'static str = "Commands (11/11):\n/i <targets> <item> [count]\n/starterkit\n/delstarterkit";

/// The executor of the help command.
#[derive(Clone, Copy, Debug, PartialEq, Eq)]
pub struct HelpExecutor;

/// The optional argument as an optional character sequence.
pub open spec fn argument_view(arg: Option<&str>) -> Option<Seq<char>> {
    match arg {
        Some(a) => Some(a@),
        None => None,
    }
}

/// The page that the argument asks for: the number it stands for, where it
/// is a number from one to `PAGE_COUNT`, and page one in every other case.
pub open spec fn page_of(arg: Option<Seq<char>>) -> u32 {
    match arg {
        Some(a) => match parsed_u32(a) {
            Some(n) => if 1 <= n <= PAGE_COUNT {
                n
            } else {
                1
            },
            None => 1,
        },
        None => 1,
    }
}

/// The text of a page of the help; every page above ten is the last page.
pub open spec fn help_page_text(page: u32) -> Seq<char> {
    if page == 1 {
        HELP_PAGE_1@
    } else     if page == 2 {
        HELP_PAGE_2@
    } else     if page == 3 {
        HELP_PAGE_3@
    } else     if page == 4 {
        HELP_PAGE_4@
    } else     if page == 5 {
        HELP_PAGE_5@
    } else     if page == 6 {
        HELP_PAGE_6@
    } else     if page == 7 {
        HELP_PAGE_7@
    } else     if page == 8 {
        HELP_PAGE_8@
    } else     if page == 9 {
        HELP_PAGE_9@
    } else     if page == 10 {
        HELP_PAGE_10@
    } else {
        HELP_PAGE_11@
    }
}

/// The header of the help: the number of commands, then the greeting.
pub open spec fn help_header_text() -> Seq<char> {
    decimal(COMMAND_COUNT as nat) + HELP_HEADER_TAIL@
}

impl HelpExecutor {
    /// The page that the argument asks for.
    pub fn page_for(&self, arg: Option<&str>) -> (page: u32)
        ensures
            page == page_of(argument_view(arg)),
            1 <= page <= PAGE_COUNT,
    {
        match arg {
            Some(a) => match parse_u32(a) {
                Some(n) => if 1 <= n && n <= PAGE_COUNT {
                    n
                } else {
                    1
                },
                None => 1,
            },
            None => 1,
        }
    }

    /// The header of the help, shown in gray above every page.
    pub fn header(&self) -> (r: Reply)
        ensures
            r.text@ == help_header_text(),
            r.color == NamedColor::Gray,
    {
        let mut text = String::new();
        push_decimal(&mut text, COMMAND_COUNT as u64);
        text.append(HELP_HEADER_TAIL);
        assert(text@ =~= help_header_text());
        Reply { text, color: NamedColor::Gray }
    }

    /// The text of a page of the help, shown in white.
    pub fn body(&self, page: u32) -> (r: &'static str)
        ensures
            r@ == help_page_text(page),
    {
        if page == 1 {
            HELP_PAGE_1
        } else         if page == 2 {
            HELP_PAGE_2
        } else         if page == 3 {
            HELP_PAGE_3
        } else         if page == 4 {
            HELP_PAGE_4
        } else         if page == 5 {
            HELP_PAGE_5
        } else         if page == 6 {
            HELP_PAGE_6
        } else         if page == 7 {
            HELP_PAGE_7
        } else         if page == 8 {
            HELP_PAGE_8
        } else         if page == 9 {
            HELP_PAGE_9
        } else         if page == 10 {
            HELP_PAGE_10
        } else {
            HELP_PAGE_11
        }
    }
}

/// The executor of the help command.
pub fn jinx_help_command() -> HelpExecutor {
    HelpExecutor
}

/// An expression as the calculator reads it: without white space at its
/// ends, and with ` x `, the multiplication sign and `X` read as `*`.
pub open spec fn normalized_expression(expr: Seq<char>) -> Seq<char> {
    replace_all(
        replace_all(replace_all(trim(expr), " x "@, " * "@), "\u{d7}"@, "*"@),
        "X"@,
        "*"@,
    )
}

/// Prepares an expression for the calculator.
pub fn normalize_expression(expr: &str) -> (r: String)
    ensures
        r@ == normalized_expression(expr@),
{
    let trimmed = trim_string(expr);
    let first = replace(trimmed.as_str(), " x ", " * ");
    let second = replace(first.as_str(), "\u{d7}", "*");
    replace(second.as_str(), "X", "*")
}

/// What begins the answer of the coin flip.
pub const FLIP_PREFIX: &'static str = "Coin flip: ";

/// The side of the coin in words.
pub open spec fn side_text(heads: bool) -> Seq<char> {
    if heads {
        "Heads"@
    } else {
        "Tails"@
    }
}

/// Flips a fair coin.
///
/// Wraps `rand::random::<bool>`, which draws from the thread's generator.
/// Nothing is claimed of the outcome.
#[verifier::external_body]
fn coin_flip() -> (heads: bool) {
    rand::random::<bool>()
}

/// The answer of the coin flip for a given side, in white.
pub fn flip_reply(heads: bool) -> (r: Reply)
    ensures
        r.text@ == FLIP_PREFIX@ + side_text(heads),
        r.color == NamedColor::White,
{
    let mut text = String::from_str(FLIP_PREFIX);
    if heads {
        text.append("Heads");
    } else {
        text.append("Tails");
    }
    Reply { text, color: NamedColor::White }
}

/// Flips a coin and answers with the side that came up.
pub fn flip() -> (r: Reply)
    ensures
        r.text@ == FLIP_PREFIX@ + side_text(true) || r.text@ == FLIP_PREFIX@ + side_text(false),
        r.color == NamedColor::White,
{
    flip_reply(coin_flip())
}

/// The longest ping that is shown for a player who answers in time, in
/// milliseconds.
pub const PING_CAP_MS: u64 = 1000;

/// The ping to show for a player, in milliseconds: the time since the last
/// keep-alive, capped at `PING_CAP_MS` unless an answer is still awaited.
pub fn estimate_ping(since_keep_alive_ms: u64, waiting: bool) -> (ms: u64)
    ensures
        ms == if !waiting && since_keep_alive_ms > PING_CAP_MS {
            PING_CAP_MS
        } else {
            since_keep_alive_ms
        },
{
    if !waiting && since_keep_alive_ms > PING_CAP_MS {
        PING_CAP_MS
    } else {
        since_keep_alive_ms
    }
}

/// The seconds a player still has to wait for a kit: a kit with a delay
/// that was last taken `elapsed_secs` whole seconds ago can be taken again
/// once the delay has passed.
pub fn cooldown_remaining(delay_secs: u64, elapsed_secs: u64) -> (remaining: Option<u64>)
    ensures
        remaining == if elapsed_secs < delay_secs {
            Some((delay_secs - elapsed_secs) as u64)
        } else {
            None::<u64>
        },
{
    if elapsed_secs < delay_secs {
        Some(delay_secs - elapsed_secs)
    } else {
        None
    }
}

} // verus!
