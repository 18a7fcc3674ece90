//! The chat filter: words of a list are found in a message, as whole words
//! and without regard to case, and replaced.

use crate::config::ChatFilterMode;
use crate::text::{alphanumeric, chars_of, is_alphanumeric, lowercase, push_char, to_lowercase};
use vstd::hash_set::StringHashSet;
use vstd::prelude::*;
use vstd::string::StringExecFns;

verus! {

/// The words to filter, in lower case.
pub struct WordList {
    words: StringHashSet,
}

impl View for WordList {
    type V = Set<Seq<char>>;

    closed spec fn view(&self) -> Set<Seq<char>> {
        self.words@
    }
}

/// The given words in lower case, as a set.
pub open spec fn lowered(words: Seq<String>) -> Set<Seq<char>> {
    Set::new(|w: Seq<char>| exists|i: int| 0 <= i < words.len() && w == lowercase(#[trigger] words[i]@))
}

impl WordList {
    /// The list of the given words, each taken in lower case.
    pub fn new(words: &Vec<String>) -> (list: WordList)
        ensures
            list@ == lowered(words@),
    {
        let mut set = StringHashSet::new();
        let mut i: usize = 0;
        while i < words.len()
            invariant
                i <= words.len(),
                set@ == lowered(words@.take(i as int)),
            decreases words.len() - i,
        {
            let ghost before = set@;
            set.insert(to_lowercase(words[i].as_str()));
            proof {
                let seen = words@.take(i as int);
                let more = words@.take(i + 1);
                assert forall|w: Seq<char>| #[trigger] set@.contains(w) <==> lowered(more).contains(w) by {
                    if before.contains(w) {
                        let k = choose|k: int| 0 <= k < seen.len() && w == lowercase(#[trigger] seen[k]@);
                        assert(more[k] == seen[k]);
                    }
                    if w == lowercase(words@[i as int]@) {
                        assert(more[i as int] == words@[i as int]);
                    }
                    if lowered(more).contains(w) {
                        let k = choose|k: int| 0 <= k < more.len() && w == lowercase(#[trigger] more[k]@);
                        if k < i {
                            assert(seen[k] == more[k]);
                        }
                    }
                }
                assert(set@ =~= lowered(more));
            }
            i += 1;
        }
        assert(words@.take(i as int) =~= words@);
        WordList { words: set }
    }

    /// Tells whether the list holds no word.
    pub fn is_empty(&self) -> (b: bool)
        ensures
            b == (self@ == Set::<Seq<char>>::empty()),
    {
        let b = self.words.is_empty();
        assert(self@.is_empty() == (self@ =~= Set::<Seq<char>>::empty()));
        b
    }
}

/// Whether a finished word is one to filter.
pub open spec fn is_hit(token: Seq<char>, words: Set<Seq<char>>) -> bool {
    token.len() > 0 && words.contains(lowercase(token))
}

/// `out` with a finished word appended: the replacement where the word is
/// one to filter, else the word itself.
pub open spec fn with_token(
    out: Seq<char>,
    token: Seq<char>,
    words: Set<Seq<char>>,
    replacement: Seq<char>,
) -> Seq<char> {
    if is_hit(token, words) {
        out + replacement
    } else {
        out + token
    }
}

/// The filtered message read from index `i` on, and whether any word was
/// filtered: `token` is the word being read, `out` what is written so far,
/// `hit` whether a word was filtered so far. A word is a longest run of
/// letters and digits; every other character is copied.
pub open spec fn filter_from(
    s: Seq<char>,
    i: int,
    token: Seq<char>,
    out: Seq<char>,
    hit: bool,
    words: Set<Seq<char>>,
    replacement: Seq<char>,
) -> (bool, Seq<char>)
    decreases s.len() - i,
{
    if i < 0 || i >= s.len() {
        (hit || is_hit(token, words), with_token(out, token, words, replacement))
    } else if alphanumeric(s[i]) {
        filter_from(s, i + 1, token.push(s[i]), out, hit, words, replacement)
    } else {
        filter_from(
            s,
            i + 1,
            Seq::empty(),
            with_token(out, token, words, replacement).push(s[i]),
            hit || is_hit(token, words),
            words,
            replacement,
        )
    }
}

/// The filtered message, and whether any word was filtered.
pub open spec fn filtered(message: Seq<char>, words: Set<Seq<char>>, replacement: Seq<char>) -> (
    bool,
    Seq<char>,
) {
    filter_from(message, 0, Seq::empty(), Seq::empty(), false, words, replacement)
}

/// Replaces every word of the message that the list holds.
pub fn filter_message(message: &str, words: &WordList, replacement: &str) -> (r: (bool, String))
    ensures
        (r.0, r.1@) == filtered(message@, words@, replacement@),
{
    let chars = chars_of(message);
    let mut output = String::new();
    let mut token = String::new();
    let mut matched = false;
    let mut i: usize = 0;
    while i < chars.len()
        invariant
            i <= chars.len(),
            chars@ == message@,
            filter_from(message@, i as int, token@, output@, matched, words@, replacement@)
                == filtered(message@, words@, replacement@),
        decreases chars.len() - i,
    {
        let ch = chars[i];
        if is_alphanumeric(ch) {
            push_char(&mut token, ch);
        } else {
            let ghost before = output@;
            let ghost word = token@;
            if !token.as_str().is_empty() {
                let lower = to_lowercase(token.as_str());
                if words.words.contains(lower.as_str()) {
                    output.append(replacement);
                    matched = true;
                } else {
                    output.append(token.as_str());
                }
                token = String::new();
            }
            assert(output@ =~= with_token(before, word, words@, replacement@));
            assert(token@ =~= Seq::empty());
            push_char(&mut output, ch);
        }
        i += 1;
    }
    let ghost before = output@;
    let ghost word = token@;
    if !token.as_str().is_empty() {
        let lower = to_lowercase(token.as_str());
        if words.words.contains(lower.as_str()) {
            output.append(replacement);
            matched = true;
        } else {
            output.append(token.as_str());
        }
    }
    assert(output@ =~= with_token(before, word, words@, replacement@));
    (matched, output)
}

/// What becomes of a chat message.
#[derive(Clone, Debug, PartialEq, Eq)]
pub enum FilterOutcome {
    /// The message goes through as it is.
    Pass,
    /// The message is not delivered.
    Cancel,
    /// The message goes through with the given text.
    Replace(String),
}

/// What becomes of a chat message, as mathematical values.
pub enum FilterOutcomeView {
    Pass,
    Cancel,
    Replace(Seq<char>),
}

impl View for FilterOutcome {
    type V = FilterOutcomeView;

    open spec fn view(&self) -> FilterOutcomeView {
        match self {
            FilterOutcome::Pass => FilterOutcomeView::Pass,
            FilterOutcome::Cancel => FilterOutcomeView::Cancel,
            FilterOutcome::Replace(text) => FilterOutcomeView::Replace(text@),
        }
    }
}

/// What becomes of a message: it passes where the filter is off, where the
/// sender may bypass it, where the list is empty or where no word of it is
/// found; else it is cancelled or replaced, as the mode says.
pub open spec fn outcome_of(
    enabled: bool,
    bypass: bool,
    mode: ChatFilterMode,
    message: Seq<char>,
    words: Set<Seq<char>>,
    replacement: Seq<char>,
) -> FilterOutcomeView {
    if !enabled || bypass || words == Set::<Seq<char>>::empty() || !filtered(
        message,
        words,
        replacement,
    ).0 {
        FilterOutcomeView::Pass
    } else if mode == ChatFilterMode::Cancel {
        FilterOutcomeView::Cancel
    } else {
        FilterOutcomeView::Replace(filtered(message, words, replacement).1)
    }
}

/// Decides what becomes of a chat message.
pub fn filter_outcome(
    enabled: bool,
    bypass: bool,
    mode: ChatFilterMode,
    message: &str,
    words: &WordList,
    replacement: &str,
) -> (outcome: FilterOutcome)
    ensures
        outcome@ == outcome_of(enabled, bypass, mode, message@, words@, replacement@),
{
    if !enabled || bypass || words.is_empty() {
        return FilterOutcome::Pass;
    }
    let (matched, text) = filter_message(message, words, replacement);
    if !matched {
        return FilterOutcome::Pass;
    }
    match mode {
        ChatFilterMode::Cancel => FilterOutcome::Cancel,
        ChatFilterMode::Replace => FilterOutcome::Replace(text),
    }
}

} // verus!
