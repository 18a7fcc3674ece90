//! The list of links: one `name: link` entry on a line.

use crate::template::{split_from, split_lines};
use crate::text::{chars_of, lowercase, string_of, to_lowercase, trim, trimmed_end, trimmed_start};
use vstd::prelude::*;

verus! {

/// The index of the first colon of `s` at or after index `i`, or the length
/// of `s` where there is none.
pub open spec fn first_colon(s: Seq<char>, i: int) -> int
    decreases s.len() - i,
{
    if i < 0 || i >= s.len() {
        s.len() as int
    } else if s[i] == ':' {
        i
    } else {
        first_colon(s, i + 1)
    }
}

/// The entry that a line holds. A line counts without the white space at
/// its ends. An empty line, one that begins with `#` and one without a colon
/// hold none. What stands before the first colon is the name, taken in
/// lower case, what stands after it the link, each without the white space
/// at its ends; where one of the two is empty the line holds no entry.
pub open spec fn entry_of(line: Seq<char>) -> Option<(Seq<char>, Seq<char>)> {
    let l = trim(line);
    let k = first_colon(l, 0);
    if l.len() == 0 || l[0] == '#' || k >= l.len() {
        None
    } else {
        let key = lowercase(trim(l.take(k)));
        let value = trim(l.skip(k + 1));
        if key.len() > 0 && value.len() > 0 {
            Some((key, value))
        } else {
            None
        }
    }
}

/// The entries that the given lines hold, in the order of the lines.
pub open spec fn entries_of(lines: Seq<Seq<char>>) -> Seq<(Seq<char>, Seq<char>)>
    decreases lines.len(),
{
    if lines.len() == 0 {
        Seq::empty()
    } else {
        match entry_of(lines.last()) {
            Some(entry) => entries_of(lines.drop_last()).push(entry),
            None => entries_of(lines.drop_last()),
        }
    }
}

/// The entries of a list of links, in the order they stand in.
pub open spec fn socials_of(content: Seq<char>) -> Seq<(Seq<char>, Seq<char>)> {
    entries_of(split_lines(content))
}

/// The entries as pairs of character sequences.
pub open spec fn entry_views(entries: Seq<(String, String)>) -> Seq<(Seq<char>, Seq<char>)> {
    entries.map_values(|e: (String, String)| (e.0@, e.1@))
}

fn parse_entry(chars: &Vec<char>, from: usize, to: usize) -> (r: Option<(String, String)>)
    requires
        from <= to <= chars.len(),
    ensures
        match r {
            Some(e) => entry_of(chars@.subrange(from as int, to as int)) == Some((e.0@, e.1@)),
            None => entry_of(chars@.subrange(from as int, to as int)) is None,
        },
{
    let start = trimmed_start(chars, from, to);
    let end = trimmed_end(chars, start, to);
    let ghost l = chars@.subrange(start as int, end as int);
    assert(l == trim(chars@.subrange(from as int, to as int)));
    if start == end || chars[start] == '#' {
        return None;
    }
    let mut colon: usize = start;
    while colon < end && chars[colon] != ':'
        invariant
            start <= colon <= end <= chars.len(),
            l == chars@.subrange(start as int, end as int),
            first_colon(l, colon - start) == first_colon(l, 0),
        decreases end - colon,
    {
        colon += 1;
    }
    if colon == end {
        return None;
    }
    assert(first_colon(l, 0) == colon - start);
    let key_start = trimmed_start(chars, start, colon);
    let key_end = trimmed_end(chars, key_start, colon);
    let value_start = trimmed_start(chars, colon + 1, end);
    let value_end = trimmed_end(chars, value_start, end);
    proof {
        assert(l.take(colon - start) =~= chars@.subrange(start as int, colon as int));
        assert(l.skip(colon - start + 1) =~= chars@.subrange(colon + 1, end as int));
    }
    let key = to_lowercase(string_of(chars, key_start, key_end).as_str());
    let value = string_of(chars, value_start, value_end);
    if key.as_str().is_empty() || value.as_str().is_empty() {
        return None;
    }
    Some((key, value))
}

/// Reads a list of links. A name that stands on several lines has several
/// entries; the last one is the one in force.
pub fn parse_socials(content: &str) -> (entries: Vec<(String, String)>)
    ensures
        entry_views(entries@) == socials_of(content@),
{
    let chars = chars_of(content);
    let mut entries: Vec<(String, String)> = Vec::new();
    let mut start: usize = 0;
    let mut i: usize = 0;
    let ghost mut pieces: Seq<Seq<char>> = Seq::empty();
    while i < chars.len()
        invariant
            start <= i <= chars.len(),
            chars@ == content@,
            split_from(content@, i as int, start as int, pieces) == split_lines(content@),
            entry_views(entries@) == entries_of(pieces),
        decreases chars.len() - i,
    {
        if chars[i] == '\n' {
            let ghost before = entry_views(entries@);
            let ghost line = content@.subrange(start as int, i as int);
            match parse_entry(&chars, start, i) {
                Some(entry) => {
                    entries.push(entry);
                    assert(entry_views(entries@) =~= before.push((entry.0@, entry.1@)));
                },
                None => {},
            }
            proof {
                assert(pieces.push(line).drop_last() =~= pieces);
                pieces = pieces.push(line);
            }
            start = i + 1;
        }
        i += 1;
    }
    let ghost before = entry_views(entries@);
    let ghost line = content@.subrange(start as int, i as int);
    match parse_entry(&chars, start, i) {
        Some(entry) => {
            entries.push(entry);
            assert(entry_views(entries@) =~= before.push((entry.0@, entry.1@)));
        },
        None => {},
    }
    proof {
        assert(pieces.push(line).drop_last() =~= pieces);
    }
    entries
}

} // verus!
