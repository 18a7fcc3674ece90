//! Inline colour markup: `&` followed by one hexadecimal digit selects one of
//! sixteen named colours for the text that follows it.

use crate::text::{chars_of, push_char};
use vstd::prelude::*;
use vstd::string::StringExecFns;

verus! {

/// The sixteen named colours, in the order of their codes `0` to `f`.
#[derive(Clone, Copy, Debug, PartialEq, Eq, Structural)]
pub enum NamedColor {
    Black,
    DarkBlue,
    DarkGreen,
    DarkAqua,
    DarkRed,
    DarkPurple,
    Gold,
    Gray,
    DarkGray,
    Blue,
    Green,
    Aqua,
    Red,
    LightPurple,
    Yellow,
    White,
}

/// A run of text and the colour it is shown in; `None` leaves the colour to
/// the client.
#[derive(Clone, Debug, PartialEq, Eq)]
pub struct Segment {
    pub text: String,
    pub color: Option<NamedColor>,
}

/// What a `Segment` holds, as mathematical values.
pub struct SegmentView {
    pub text: Seq<char>,
    pub color: Option<NamedColor>,
}

impl View for Segment {
    type V = SegmentView;

    open spec fn view(&self) -> SegmentView {
        SegmentView { text: self.text@, color: self.color }
    }
}

/// Styled text: runs of text from left to right, each with its colour.
#[derive(Clone, Debug, PartialEq, Eq)]
pub struct StyledText {
    pub segments: Vec<Segment>,
}

impl View for StyledText {
    type V = Seq<SegmentView>;

    open spec fn view(&self) -> Seq<SegmentView> {
        self.segments@.map_values(|s: Segment| s@)
    }
}

/// The colour that the code character `c` selects, if it is one of `0`-`9`,
/// `a`-`f` or `A`-`F`.
pub open spec fn color_of(c: char) -> Option<NamedColor> {
    if c == '0' {
        Some(NamedColor::Black)
    } else if c == '1' {
        Some(NamedColor::DarkBlue)
    } else if c == '2' {
        Some(NamedColor::DarkGreen)
    } else if c == '3' {
        Some(NamedColor::DarkAqua)
    } else if c == '4' {
        Some(NamedColor::DarkRed)
    } else if c == '5' {
        Some(NamedColor::DarkPurple)
    } else if c == '6' {
        Some(NamedColor::Gold)
    } else if c == '7' {
        Some(NamedColor::Gray)
    } else if c == '8' {
        Some(NamedColor::DarkGray)
    } else if c == '9' {
        Some(NamedColor::Blue)
    } else if c == 'a' || c == 'A' {
        Some(NamedColor::Green)
    } else if c == 'b' || c == 'B' {
        Some(NamedColor::Aqua)
    } else if c == 'c' || c == 'C' {
        Some(NamedColor::Red)
    } else if c == 'd' || c == 'D' {
        Some(NamedColor::LightPurple)
    } else if c == 'e' || c == 'E' {
        Some(NamedColor::Yellow)
    } else if c == 'f' || c == 'F' {
        Some(NamedColor::White)
    } else {
        None
    }
}

/// The colour selected by a code character, without regard to case.
pub fn color_from_code(code: char) -> (r: Option<NamedColor>)
    ensures
        r == color_of(code),
{
    match code {
        '0' => Some(NamedColor::Black),
        '1' => Some(NamedColor::DarkBlue),
        '2' => Some(NamedColor::DarkGreen),
        '3' => Some(NamedColor::DarkAqua),
        '4' => Some(NamedColor::DarkRed),
        '5' => Some(NamedColor::DarkPurple),
        '6' => Some(NamedColor::Gold),
        '7' => Some(NamedColor::Gray),
        '8' => Some(NamedColor::DarkGray),
        '9' => Some(NamedColor::Blue),
        'a' | 'A' => Some(NamedColor::Green),
        'b' | 'B' => Some(NamedColor::Aqua),
        'c' | 'C' => Some(NamedColor::Red),
        'd' | 'D' => Some(NamedColor::LightPurple),
        'e' | 'E' => Some(NamedColor::Yellow),
        'f' | 'F' => Some(NamedColor::White),
        _ => None,
    }
}

/// Whether a colour code stands in `s` at index `i`: an `&` with a code
/// character right after it.
pub open spec fn is_color_code(s: Seq<char>, i: int) -> bool {
    &&& 0 <= i
    &&& i + 1 < s.len()
    &&& s[i] == '&'
    &&& color_of(s[i + 1]) is Some
}

/// `out` with the buffered run appended under `color`; an empty buffer adds
/// nothing.
pub open spec fn flush(out: Seq<SegmentView>, buf: Seq<char>, color: Option<NamedColor>) -> Seq<
    SegmentView,
> {
    if buf.len() == 0 {
        out
    } else {
        out.push(SegmentView { text: buf, color })
    }
}

/// The segments of `s` read from index `i` on, where `out` holds the finished
/// segments, `buf` the run being read and `color` the colour in force.
pub open spec fn parse_from(
    s: Seq<char>,
    i: int,
    buf: Seq<char>,
    color: Option<NamedColor>,
    out: Seq<SegmentView>,
) -> Seq<SegmentView>
    decreases s.len() - i,
{
    if i < 0 || i >= s.len() {
        flush(out, buf, color)
    } else if is_color_code(s, i) {
        parse_from(s, i + 2, Seq::empty(), color_of(s[i + 1]), flush(out, buf, color))
    } else {
        parse_from(s, i + 1, buf.push(s[i]), color, out)
    }
}

/// The segments that the markup `s` stands for. A colour code ends the run
/// before it and sets the colour of what follows; every other character,
/// also an `&` that no code character follows, is text.
pub open spec fn parse_styled(s: Seq<char>) -> Seq<SegmentView> {
    parse_from(s, 0, Seq::empty(), None, Seq::empty())
}

/// The text of all segments, joined.
pub open spec fn plain_of(segments: Seq<SegmentView>) -> Seq<char>
    decreases segments.len(),
{
    if segments.len() == 0 {
        Seq::empty()
    } else {
        plain_of(segments.drop_last()) + segments.last().text
    }
}

/// `s` from index `i` on without its colour codes.
pub open spec fn strip_from(s: Seq<char>, i: int) -> Seq<char>
    decreases s.len() - i,
{
    if i < 0 || i >= s.len() {
        Seq::empty()
    } else if is_color_code(s, i) {
        strip_from(s, i + 2)
    } else {
        seq![s[i]] + strip_from(s, i + 1)
    }
}

impl StyledText {
    /// The text of all segments, joined, without any colour.
    pub fn plain(&self) -> (r: String)
        ensures
            r@ == plain_of(self@),
    {
        let mut r = String::new();
        let mut i: usize = 0;
        while i < self.segments.len()
            invariant
                i <= self.segments.len(),
                r@ == plain_of(self@.take(i as int)),
            decreases self.segments.len() - i,
        {
            assert(self@.take(i + 1).drop_last() =~= self@.take(i as int));
            r.append(self.segments[i].text.as_str());
            i += 1;
        }
        assert(self@.take(i as int) =~= self@);
        r
    }
}

/// Reads inline colour markup into styled text.
pub fn parse_colored_text(input: &str) -> (r: StyledText)
    ensures
        r@ == parse_styled(input@),
{
    let chars = chars_of(input);
    let mut segments: Vec<Segment> = Vec::new();
    let mut buffer = String::new();
    let mut color: Option<NamedColor> = None;
    let mut i: usize = 0;
    let ghost mut done: Seq<SegmentView> = Seq::empty();
    while i < chars.len()
        invariant
            i <= chars.len(),
            chars@ == input@,
            done == segments@.map_values(|s: Segment| s@),
            parse_from(input@, i as int, buffer@, color, done) == parse_styled(input@),
        decreases chars.len() - i,
    {
        let ch = chars[i];
        let mut next: Option<NamedColor> = None;
        if ch == '&' && i + 1 < chars.len() {
            next = color_from_code(chars[i + 1]);
        }
        match next {
            Some(selected) => {
                proof {
                    done = flush(done, buffer@, color);
                }
                if !buffer.as_str().is_empty() {
                    segments.push(Segment { text: buffer, color });
                    buffer = String::new();
                }
                assert(buffer@ =~= Seq::empty());
                color = Some(selected);
                i += 2;
            },
            None => {
                push_char(&mut buffer, ch);
                i += 1;
            },
        }
    }
    proof {
        done = flush(done, buffer@, color);
    }
    if !buffer.as_str().is_empty() {
        segments.push(Segment { text: buffer, color });
    }
    let r = StyledText { segments };
    assert(r@ =~= done);
    r
}

proof fn lemma_parse_without_codes(
    s: Seq<char>,
    i: int,
    buf: Seq<char>,
    color: Option<NamedColor>,
    out: Seq<SegmentView>,
)
    requires
        0 <= i <= s.len(),
        forall|j: int| i <= j < s.len() ==> !is_color_code(s, j),
    ensures
        parse_from(s, i, buf, color, out) == flush(out, buf + s.skip(i), color),
    decreases s.len() - i,
{
    if i >= s.len() {
        assert(buf + s.skip(i) =~= buf);
    } else {
        lemma_parse_without_codes(s, i + 1, buf.push(s[i]), color, out);
        assert(buf.push(s[i]) + s.skip(i + 1) =~= buf + s.skip(i));
    }
}

/// Text that holds no colour code is one segment: the text itself, with no
/// colour. The empty text has no segment at all.
pub proof fn lemma_uncoloured_text_is_one_segment(s: Seq<char>)
    requires
        s.len() > 0,
        forall|i: int| !is_color_code(s, i),
    ensures
        parse_styled(s) == seq![(SegmentView { text: s, color: None })],
{
    lemma_parse_without_codes(s, 0, Seq::empty(), None, Seq::empty());
    assert(Seq::<char>::empty() + s.skip(0) =~= s);
    assert(Seq::<SegmentView>::empty().push(SegmentView { text: s, color: None })
        =~= seq![(SegmentView { text: s, color: None })]);
}

/// The empty text has no segment.
pub proof fn lemma_empty_text_has_no_segment()
    ensures
        parse_styled(Seq::empty()) == Seq::<SegmentView>::empty(),
{
}

proof fn lemma_plain_of_parse(
    s: Seq<char>,
    i: int,
    buf: Seq<char>,
    color: Option<NamedColor>,
    out: Seq<SegmentView>,
)
    requires
        0 <= i,
    ensures
        plain_of(parse_from(s, i, buf, color, out)) == plain_of(out) + buf + strip_from(s, i),
    decreases s.len() - i,
{
    let flushed = flush(out, buf, color);
    assert(plain_of(flushed) =~= plain_of(out) + buf) by {
        if buf.len() > 0 {
            assert(flushed.drop_last() =~= out);
        }
    }
    if i >= s.len() {
        assert(plain_of(out) + buf + strip_from(s, i) =~= plain_of(out) + buf);
    } else if is_color_code(s, i) {
        lemma_plain_of_parse(s, i + 2, Seq::empty(), color_of(s[i + 1]), flushed);
        assert(plain_of(flushed) + Seq::<char>::empty() + strip_from(s, i + 2) =~= plain_of(out)
            + buf + strip_from(s, i));
    } else {
        lemma_plain_of_parse(s, i + 1, buf.push(s[i]), color, out);
        assert(plain_of(out) + buf.push(s[i]) + strip_from(s, i + 1) =~= plain_of(out) + buf
            + strip_from(s, i));
    }
}

/// Parsing keeps the text: the segments' texts, joined, are the input
/// without its colour codes.
pub proof fn lemma_parse_keeps_text(s: Seq<char>)
    ensures
        plain_of(parse_styled(s)) == strip_from(s, 0),
{
    lemma_plain_of_parse(s, 0, Seq::empty(), None, Seq::empty());
    assert(plain_of(Seq::empty()) + Seq::<char>::empty() + strip_from(s, 0) =~= strip_from(s, 0));
}

proof fn lemma_segments_not_empty(
    s: Seq<char>,
    i: int,
    buf: Seq<char>,
    color: Option<NamedColor>,
    out: Seq<SegmentView>,
)
    requires
        0 <= i,
        forall|k: int| 0 <= k < out.len() ==> out[k].text.len() > 0,
    ensures
        forall|k: int|
            0 <= k < parse_from(s, i, buf, color, out).len() ==> (#[trigger] parse_from(
                s,
                i,
                buf,
                color,
                out,
            )[k]).text.len() > 0,
    decreases s.len() - i,
{
    if i >= s.len() {
    } else if is_color_code(s, i) {
        lemma_segments_not_empty(s, i + 2, Seq::empty(), color_of(s[i + 1]), flush(out, buf, color));
    } else {
        lemma_segments_not_empty(s, i + 1, buf.push(s[i]), color, out);
    }
}

/// No segment of parsed text is empty.
pub proof fn lemma_no_empty_segment(s: Seq<char>)
    ensures
        forall|k: int|
            0 <= k < parse_styled(s).len() ==> (#[trigger] parse_styled(s)[k]).text.len() > 0,
{
    lemma_segments_not_empty(s, 0, Seq::empty(), None, Seq::empty());
}

} // verus!
