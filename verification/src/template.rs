//! The sidebar template: a title and up to fifteen lines of text, read from
//! the content of a plain text resource.

use crate::text::{chars_of, string_of, trim_end, trimmed_end};
use vstd::prelude::*;
use vstd::string::StringExecFns;

verus! {

/// The most lines a sidebar shows; a template's further lines are dropped.
pub const MAX_LINES: usize = 15;

/// The first line of the built-in template: the online count.
pub const DEFAULT_LINE_ONLINE: &'static str = "Online: %online%";

/// The second line of the built-in template: the ticks per second.
pub const DEFAULT_LINE_TPS: &'static str = "TPS: %tps%";

/// The third line of the built-in template: the uptime.
pub const DEFAULT_LINE_UPTIME: &'static str = "Uptime: %uptime%";

/// A sidebar template: the raw title and the raw lines, top to bottom.
#[derive(Clone, Debug, PartialEq, Eq)]
pub struct Template {
    pub title: String,
    pub lines: Vec<String>,
}

impl Template {
    /// The raw lines as character sequences.
    pub open spec fn line_views(&self) -> Seq<Seq<char>> {
        self.lines@.map_values(|l: String| l@)
    }

    /// A template holds at most `MAX_LINES` lines.
    pub open spec fn wf(&self) -> bool {
        self.lines@.len() <= MAX_LINES
    }
}

/// The pieces of `s` between line feeds, read from index `i` on, where `out`
/// holds the finished pieces and `start` is where the current one began. The
/// piece after the last line feed counts, also when it is empty.
pub open spec fn split_from(s: Seq<char>, i: int, start: int, out: Seq<Seq<char>>) -> Seq<
    Seq<char>,
>
    decreases s.len() - i,
{
    if i < 0 || i >= s.len() {
        out.push(s.subrange(start, s.len() as int))
    } else if s[i] == '\n' {
        split_from(s, i + 1, i + 1, out.push(s.subrange(start, i)))
    } else {
        split_from(s, i + 1, start, out)
    }
}

/// The pieces of `s` between line feeds.
pub open spec fn split_lines(s: Seq<char>) -> Seq<Seq<char>> {
    split_from(s, 0, 0, Seq::empty())
}

/// The lines of `s` that count: each piece between line feeds without its
/// trailing white space, those that are then empty left out.
pub open spec fn kept_lines(s: Seq<char>) -> Seq<Seq<char>> {
    split_lines(s).map_values(|l: Seq<char>| trim_end(l)).filter(|l: Seq<char>| l.len() > 0)
}

/// The title of the template that `content` holds: its first line that
/// counts, or `fallback` where it has none.
pub open spec fn template_title(content: Seq<char>, fallback: Seq<char>) -> Seq<char> {
    let kept = kept_lines(content);
    if kept.len() > 0 {
        kept[0]
    } else {
        fallback
    }
}

/// The lines of the template that `content` holds: the lines that count
/// after the first, up to `MAX_LINES` of them.
pub open spec fn template_lines(content: Seq<char>) -> Seq<Seq<char>> {
    let kept = kept_lines(content);
    if kept.len() <= 1 {
        Seq::empty()
    } else if kept.len() - 1 > MAX_LINES {
        kept.subrange(1, 1 + MAX_LINES as int)
    } else {
        kept.skip(1)
    }
}

/// The lines of the built-in template: the online count, the ticks per
/// second and the uptime.
pub open spec fn default_lines() -> Seq<Seq<char>> {
    seq![DEFAULT_LINE_ONLINE@, DEFAULT_LINE_TPS@, DEFAULT_LINE_UPTIME@]
}

/// What a new template resource holds: the title and the lines of the
/// built-in template, each followed by a line feed.
pub open spec fn default_content(title: Seq<char>) -> Seq<char> {
    title + "\n"@ + DEFAULT_LINE_ONLINE@ + "\n"@ + DEFAULT_LINE_TPS@ + "\n"@ + DEFAULT_LINE_UPTIME@
        + "\n"@
}

/// The content to create a missing template resource with.
pub fn default_template_text(fallback_title: &str) -> (r: String)
    ensures
        r@ == default_content(fallback_title@),
{
    let mut r = String::from_str(fallback_title);
    r.append("\n");
    r.append(DEFAULT_LINE_ONLINE);
    r.append("\n");
    r.append(DEFAULT_LINE_TPS);
    r.append("\n");
    r.append(DEFAULT_LINE_UPTIME);
    r.append("\n");
    r
}

proof fn lemma_keep_one_more(pieces: Seq<Seq<char>>, raw: Seq<char>)
    ensures
        ({
            let before = pieces.map_values(|l: Seq<char>| trim_end(l)).filter(
                |l: Seq<char>| l.len() > 0,
            );
            let after = pieces.push(raw).map_values(|l: Seq<char>| trim_end(l)).filter(
                |l: Seq<char>| l.len() > 0,
            );
            after == if trim_end(raw).len() > 0 {
                before.push(trim_end(raw))
            } else {
                before
            }
        }),
{
    reveal(Seq::filter);
    let mapped = pieces.map_values(|l: Seq<char>| trim_end(l));
    let mapped_after = pieces.push(raw).map_values(|l: Seq<char>| trim_end(l));
    assert(mapped_after =~= mapped.push(trim_end(raw)));
    assert(mapped.push(trim_end(raw)).drop_last() =~= mapped);
}

/// Reads a template from the content of its resource. Where the content has
/// no line that counts, the title is `fallback_title` and there are no lines.
pub fn parse_template(content: &str, fallback_title: &str) -> (t: Template)
    ensures
        t.title@ == template_title(content@, fallback_title@),
        t.line_views() == template_lines(content@),
        t.wf(),
{
    let chars = chars_of(content);
    let mut kept: Vec<String> = Vec::new();
    let mut start: usize = 0;
    let mut i: usize = 0;
    let ghost mut pieces: Seq<Seq<char>> = Seq::empty();
    assert(pieces.map_values(|l: Seq<char>| trim_end(l)).filter(|l: Seq<char>| l.len() > 0)
        =~= Seq::empty()) by {
        reveal(Seq::filter);
    }
    while i < chars.len()
        invariant
            start <= i <= chars.len(),
            chars@ == content@,
            split_from(content@, i as int, start as int, pieces) == split_lines(content@),
            kept@.map_values(|l: String| l@) == pieces.map_values(|l: Seq<char>| trim_end(l)).filter(
                |l: Seq<char>| l.len() > 0,
            ),
        decreases chars.len() - i,
    {
        if chars[i] == '\n' {
            let end = trimmed_end(&chars, start, i);
            proof {
                lemma_keep_one_more(pieces, content@.subrange(start as int, i as int));
                pieces = pieces.push(content@.subrange(start as int, i as int));
            }
            if end > start {
                kept.push(string_of(&chars, start, end));
            }
            start = i + 1;
        }
        i += 1;
    }
    let end = trimmed_end(&chars, start, i);
    proof {
        lemma_keep_one_more(pieces, content@.subrange(start as int, i as int));
        pieces = pieces.push(content@.subrange(start as int, i as int));
    }
    if end > start {
        kept.push(string_of(&chars, start, end));
    }
    assert(kept@.map_values(|l: String| l@) == kept_lines(content@));
    if kept.len() == 0 {
        let t = Template { title: String::from_str(fallback_title), lines: kept };
        assert(t.line_views() =~= template_lines(content@));
        return t;
    }
    let title = kept.remove(0);
    kept.truncate(MAX_LINES);
    let t = Template { title, lines: kept };
    assert(t.line_views() =~= template_lines(content@));
    t
}

/// The built-in template under the given title: the title as it stands and
/// the three built-in lines.
pub fn built_in_template(fallback_title: &str) -> (t: Template)
    ensures
        t.title@ == fallback_title@,
        t.line_views() == default_lines(),
        t.wf(),
{
    let mut lines: Vec<String> = Vec::new();
    lines.push(String::from_str(DEFAULT_LINE_ONLINE));
    lines.push(String::from_str(DEFAULT_LINE_TPS));
    lines.push(String::from_str(DEFAULT_LINE_UPTIME));
    let t = Template { title: String::from_str(fallback_title), lines };
    assert(t.line_views() =~= default_lines());
    t
}

/// Loads the template from what was read of its resource. Content that was
/// read is parsed. `None` stands for a resource that could not be read, and
/// gives the built-in template: the fallback title as it stands and the
/// three built-in lines.
pub fn load_template(content: Option<&str>, fallback_title: &str) -> (t: Template)
    ensures
        match content {
            Some(c) => {
                &&& t.title@ == template_title(c@, fallback_title@)
                &&& t.line_views() == template_lines(c@)
            },
            None => {
                &&& t.title@ == fallback_title@
                &&& t.line_views() == default_lines()
            },
        },
        t.wf(),
{
    match content {
        Some(c) => parse_template(c, fallback_title),
        None => built_in_template(fallback_title),
    }
}

} // verus!
