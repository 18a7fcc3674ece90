//! Text primitives: character sequences, decimal numerals, literal
//! replacement and trailing-whitespace trimming.
//!
//! Every function here is specified over `Seq<char>`, the view of `str` and
//! `String`.

use vstd::prelude::*;
use vstd::string::StringExecFns;

verus! {

/// Appends one character to a string.
///
/// Wraps `String::push`, which appends the given `char` to the end of the
/// string and leaves the earlier contents as they were.
#[verifier::external_body]
pub(crate) fn push_char(s: &mut String, c: char)
    ensures
        final(s)@ == old(s)@.push(c),
{
    s.push(c)
}

/// The characters of `s`, in order.
pub fn chars_of(s: &str) -> (v: Vec<char>)
    ensures
        v@ == s@,
{
    let mut v: Vec<char> = Vec::new();
    for c in it: s.chars()
        invariant
            v@ == it.seq().take(it.index()),
            it.seq() == s@,
    {
        v.push(c);
    }
    v
}

/// The string made of `chars[from..to]`.
pub fn string_of(chars: &Vec<char>, from: usize, to: usize) -> (r: String)
    requires
        from <= to <= chars.len(),
    ensures
        r@ == chars@.subrange(from as int, to as int),
{
    let mut r = String::new();
    let mut i: usize = from;
    while i < to
        invariant
            from <= i <= to <= chars.len(),
            r@ == chars@.subrange(from as int, i as int),
        decreases to - i,
    {
        push_char(&mut r, chars[i]);
        i += 1;
    }
    r
}

/// The decimal digit for `d`, for `d` below ten.
pub open spec fn digit_char(d: nat) -> char {
    if d == 0 {
        '0'
    } else if d == 1 {
        '1'
    } else if d == 2 {
        '2'
    } else if d == 3 {
        '3'
    } else if d == 4 {
        '4'
    } else if d == 5 {
        '5'
    } else if d == 6 {
        '6'
    } else if d == 7 {
        '7'
    } else if d == 8 {
        '8'
    } else {
        '9'
    }
}

/// The decimal numeral of `n`: no sign, no leading zero but for `0` itself.
pub open spec fn decimal(n: nat) -> Seq<char>
    decreases n,
{
    if n < 10 {
        seq![digit_char(n)]
    } else {
        decimal(n / 10).push(digit_char(n % 10))
    }
}

/// The decimal numeral of `n`, padded with zeros on the left to two digits.
pub open spec fn decimal2(n: nat) -> Seq<char> {
    if n < 10 {
        seq!['0'] + decimal(n)
    } else {
        decimal(n)
    }
}

fn digit_of(d: u64) -> (c: char)
    requires
        d < 10,
    ensures
        c == digit_char(d as nat),
{
    if d == 0 {
        '0'
    } else if d == 1 {
        '1'
    } else if d == 2 {
        '2'
    } else if d == 3 {
        '3'
    } else if d == 4 {
        '4'
    } else if d == 5 {
        '5'
    } else if d == 6 {
        '6'
    } else if d == 7 {
        '7'
    } else if d == 8 {
        '8'
    } else {
        '9'
    }
}

/// Appends the decimal numeral of `n` to `out`.
pub fn push_decimal(out: &mut String, n: u64)
    ensures
        final(out)@ == old(out)@ + decimal(n as nat),
    decreases n,
{
    if n >= 10 {
        push_decimal(out, n / 10);
    }
    push_char(out, digit_of(n % 10));
}

/// The decimal numeral of `n` as a string.
pub fn decimal_string(n: u64) -> (r: String)
    ensures
        r@ == decimal(n as nat),
{
    let mut r = String::new();
    push_decimal(&mut r, n);
    r
}

/// Whether `pat` stands in `s` at index `i`.
pub open spec fn matches_at(s: Seq<char>, i: int, pat: Seq<char>) -> bool {
    &&& 0 <= i
    &&& i + pat.len() <= s.len()
    &&& s.subrange(i, i + pat.len()) == pat
}

/// `s` from index `i` on, with every occurrence of the non-empty `from`
/// replaced by `to`: occurrences are found from the left and do not overlap.
pub open spec fn replace_from(s: Seq<char>, i: int, from: Seq<char>, to: Seq<char>) -> Seq<char>
    decreases s.len() - i,
{
    if i < 0 || i >= s.len() || from.len() == 0 {
        Seq::empty()
    } else if matches_at(s, i, from) {
        to + replace_from(s, i + from.len(), from, to)
    } else {
        seq![s[i]] + replace_from(s, i + 1, from, to)
    }
}

/// Each character of `s` from index `i` on, each followed by `to`.
pub open spec fn interleave_from(s: Seq<char>, i: int, to: Seq<char>) -> Seq<char>
    decreases s.len() - i,
{
    if i < 0 || i >= s.len() {
        Seq::empty()
    } else {
        seq![s[i]] + to + interleave_from(s, i + 1, to)
    }
}

/// `s` with every occurrence of `from` replaced by `to`, leftmost first and
/// without overlap. An empty `from` occurs before every character and at the
/// end.
pub open spec fn replace_all(s: Seq<char>, from: Seq<char>, to: Seq<char>) -> Seq<char> {
    if from.len() == 0 {
        to + interleave_from(s, 0, to)
    } else {
        replace_from(s, 0, from, to)
    }
}

fn occurs_at(text: &Vec<char>, i: usize, pat: &Vec<char>) -> (b: bool)
    requires
        i <= text.len(),
    ensures
        b == matches_at(text@, i as int, pat@),
{
    if pat.len() > text.len() - i {
        return false;
    }
    let mut k: usize = 0;
    while k < pat.len()
        invariant
            k <= pat.len(),
            i + pat.len() <= text.len(),
            forall|j: int| 0 <= j < k ==> text@[i + j] == pat@[j],
        decreases pat.len() - k,
    {
        if text[i + k] != pat[k] {
            assert(text@.subrange(i as int, i + pat.len())[k as int] != pat@[k as int]);
            return false;
        }
        k += 1;
    }
    assert(text@.subrange(i as int, i + pat.len()) =~= pat@);
    true
}

/// Replaces every occurrence of `from` in `s` by `to`.
pub fn replace(s: &str, from: &str, to: &str) -> (r: String)
    ensures
        r@ == replace_all(s@, from@, to@),
{
    let text = chars_of(s);
    let pat = chars_of(from);
    let mut out = String::new();
    let mut i: usize = 0;
    if pat.len() == 0 {
        out.append(to);
        while i < text.len()
            invariant
                i <= text.len(),
                text@ == s@,
                out@ + interleave_from(s@, i as int, to@) == to@ + interleave_from(s@, 0, to@),
            decreases text.len() - i,
        {
            let ghost before = out@;
            push_char(&mut out, text[i]);
            out.append(to);
            assert(out@ + interleave_from(s@, i + 1, to@) =~= before + interleave_from(
                s@,
                i as int,
                to@,
            ));
            i += 1;
        }
        assert(out@ =~= out@ + interleave_from(s@, i as int, to@));
        return out;
    }
    while i < text.len()
        invariant
            i <= text.len(),
            text@ == s@,
            pat@ == from@,
            pat@.len() > 0,
            out@ + replace_from(s@, i as int, from@, to@) == replace_from(s@, 0, from@, to@),
        decreases text.len() - i,
    {
        let ghost before = out@;
        if occurs_at(&text, i, &pat) {
            out.append(to);
            assert(out@ + replace_from(s@, i + pat@.len(), from@, to@) =~= before + replace_from(
                s@,
                i as int,
                from@,
                to@,
            ));
            i += pat.len();
        } else {
            push_char(&mut out, text[i]);
            assert(out@ + replace_from(s@, i + 1, from@, to@) =~= before + replace_from(
                s@,
                i as int,
                from@,
                to@,
            ));
            i += 1;
        }
    }
    assert(out@ =~= out@ + replace_from(s@, i as int, from@, to@));
    out
}

/// Whether `c` is white space: the characters with the Unicode property
/// `White_Space`.
pub open spec fn is_whitespace(c: char) -> bool {
    let u = c as u32;
    ||| 0x09 <= u <= 0x0D
    ||| u == 0x20
    ||| u == 0x85
    ||| u == 0xA0
    ||| u == 0x1680
    ||| 0x2000 <= u <= 0x200A
    ||| u == 0x2028
    ||| u == 0x2029
    ||| u == 0x202F
    ||| u == 0x205F
    ||| u == 0x3000
}

/// Tells whether `c` is white space.
pub fn char_is_whitespace(c: char) -> (b: bool)
    ensures
        b == is_whitespace(c),
{
    let u: u32 = c as u32;
    (0x09 <= u && u <= 0x0D) || u == 0x20 || u == 0x85 || u == 0xA0 || u == 0x1680 || (0x2000 <= u
        && u <= 0x200A) || u == 0x2028 || u == 0x2029 || u == 0x202F || u == 0x205F || u == 0x3000
}

/// `s` without its trailing white space.
pub open spec fn trim_end(s: Seq<char>) -> Seq<char>
    decreases s.len(),
{
    if s.len() > 0 && is_whitespace(s.last()) {
        trim_end(s.drop_last())
    } else {
        s
    }
}

/// The length of `chars[from..to]` once its trailing white space is removed,
/// counted from `from`.
pub fn trimmed_end(chars: &Vec<char>, from: usize, to: usize) -> (end: usize)
    requires
        from <= to <= chars.len(),
    ensures
        from <= end <= to,
        chars@.subrange(from as int, end as int) == trim_end(chars@.subrange(from as int, to as int)),
{
    let mut end: usize = to;
    while end > from && char_is_whitespace(chars[end - 1])
        invariant
            from <= end <= to <= chars.len(),
            trim_end(chars@.subrange(from as int, end as int)) == trim_end(
                chars@.subrange(from as int, to as int),
            ),
        decreases end,
    {
        assert(chars@.subrange(from as int, end as int).drop_last() =~= chars@.subrange(
            from as int,
            end - 1,
        ));
        end -= 1;
    }
    end
}

/// Ten to the power `k`.
pub open spec fn pow10(k: nat) -> nat
    decreases k,
{
    if k == 0 {
        1
    } else {
        10 * pow10((k - 1) as nat)
    }
}

proof fn lemma_decimal_len_below(n: nat, k: nat)
    requires
        k >= 1,
        n < pow10(k),
    ensures
        1 <= decimal(n).len() <= k,
    decreases k,
{
    if n >= 10 {
        assert(pow10(1) == 10) by {
            reveal_with_fuel(pow10, 2);
        }
        assert(k >= 2);
        lemma_decimal_len_below(n / 10, (k - 1) as nat);
    }
}

/// A numeral of a 64-bit number has between one and twenty digits.
pub proof fn lemma_decimal_len(n: nat)
    requires
        n <= u64::MAX,
    ensures
        1 <= decimal(n).len() <= 20,
{
    assert(pow10(20) == 100_000_000_000_000_000_000) by {
        reveal_with_fuel(pow10, 21);
    }
    lemma_decimal_len_below(n, 20);
}

/// A numeral holds decimal digits only.
pub proof fn lemma_decimal_digits(n: nat)
    ensures
        forall|i: int| 0 <= i < decimal(n).len() ==> '0' <= #[trigger] decimal(n)[i] <= '9',
    decreases n,
{
    assert('0' <= digit_char(n % 10) <= '9');
    if n >= 10 {
        lemma_decimal_digits(n / 10);
        let head = decimal(n / 10);
        assert forall|i: int| 0 <= i < decimal(n).len() implies '0' <= #[trigger] decimal(n)[i]
            <= '9' by {
            if i < head.len() {
                assert(decimal(n)[i] == head[i]);
            }
        }
    }
}

/// `s` without its leading white space.
pub open spec fn trim_start(s: Seq<char>) -> Seq<char>
    decreases s.len(),
{
    if s.len() > 0 && is_whitespace(s[0]) {
        trim_start(s.skip(1))
    } else {
        s
    }
}

/// `s` without its leading and trailing white space.
pub open spec fn trim(s: Seq<char>) -> Seq<char> {
    trim_end(trim_start(s))
}

/// Where `chars[from..to]` begins once its leading white space is removed.
pub fn trimmed_start(chars: &Vec<char>, from: usize, to: usize) -> (start: usize)
    requires
        from <= to <= chars.len(),
    ensures
        from <= start <= to,
        chars@.subrange(start as int, to as int) == trim_start(
            chars@.subrange(from as int, to as int),
        ),
{
    let mut start: usize = from;
    while start < to && char_is_whitespace(chars[start])
        invariant
            from <= start <= to <= chars.len(),
            trim_start(chars@.subrange(start as int, to as int)) == trim_start(
                chars@.subrange(from as int, to as int),
            ),
        decreases to - start,
    {
        assert(chars@.subrange(start as int, to as int).skip(1) =~= chars@.subrange(
            start + 1,
            to as int,
        ));
        start += 1;
    }
    start
}

/// Removes the white space at both ends of `s`.
pub fn trim_string(s: &str) -> (r: String)
    ensures
        r@ == trim(s@),
{
    let chars = chars_of(s);
    let start = trimmed_start(&chars, 0, chars.len());
    let end = trimmed_end(&chars, start, chars.len());
    assert(chars@.subrange(0, chars@.len() as int) =~= chars@);
    string_of(&chars, start, end)
}

/// The number that the decimal digit `c` stands for.
pub open spec fn digit_value(c: char) -> nat {
    (c as u32 - 0x30) as nat
}

/// Whether `c` is one of the decimal digits `0` to `9`.
pub open spec fn is_digit(c: char) -> bool {
    '0' <= c <= '9'
}

/// The number that a sequence of decimal digits stands for.
pub open spec fn digits_value(s: Seq<char>) -> nat
    decreases s.len(),
{
    if s.len() == 0 {
        0
    } else {
        digits_value(s.drop_last()) * 10 + digit_value(s.last())
    }
}

/// `s` without the `+` that it may begin with.
pub open spec fn unsigned_part(s: Seq<char>) -> Seq<char> {
    if s.len() > 0 && s[0] == '+' {
        s.skip(1)
    } else {
        s
    }
}

/// The 32-bit number that `s` stands for: an optional `+`, then one or more
/// decimal digits whose number fits 32 bits. Anything else is no number.
pub open spec fn parsed_u32(s: Seq<char>) -> Option<u32> {
    let digits = unsigned_part(s);
    if digits.len() > 0 && (forall|i: int| 0 <= i < digits.len() ==> is_digit(digits[i]))
        && digits_value(digits) <= u32::MAX {
        Some(digits_value(digits) as u32)
    } else {
        None
    }
}

proof fn lemma_digits_value_grows(s: Seq<char>, k: int)
    requires
        0 <= k <= s.len(),
        forall|i: int| 0 <= i < s.len() ==> is_digit(s[i]),
    ensures
        digits_value(s.take(k)) <= digits_value(s),
    decreases s.len() - k,
{
    if k < s.len() {
        lemma_digits_value_grows(s, k + 1);
        assert(s.take(k + 1).drop_last() =~= s.take(k));
    } else {
        assert(s.take(k) =~= s);
    }
}

/// Reads a 32-bit number in decimal notation.
pub fn parse_u32(s: &str) -> (r: Option<u32>)
    ensures
        r == parsed_u32(s@),
{
    let chars = chars_of(s);
    let start: usize = if chars.len() > 0 && chars[0] == '+' {
        1
    } else {
        0
    };
    let ghost digits = unsigned_part(s@);
    assert(digits =~= s@.skip(start as int));
    if start == chars.len() {
        return None;
    }
    let mut acc: u64 = 0;
    let mut i: usize = start;
    while i < chars.len()
        invariant
            start <= i <= chars.len(),
            chars@ == s@,
            digits == s@.skip(start as int),
            digits == unsigned_part(s@),
            forall|j: int| 0 <= j < i - start ==> is_digit(digits[j]),
            acc == digits_value(digits.take(i - start)),
            acc <= u32::MAX,
        decreases chars.len() - i,
    {
        let c = chars[i];
        if c < '0' || c > '9' {
            assert(!is_digit(digits[i - start]));
            return None;
        }
        let d: u64 = (c as u32 - 0x30) as u64;
        let next: u64 = acc * 10 + d;
        proof {
            assert(digits.take(i + 1 - start).drop_last() =~= digits.take(i - start));
            assert(next == digits_value(digits.take(i + 1 - start)));
        }
        if next > 0xffff_ffff {
            proof {
                if forall|j: int| 0 <= j < digits.len() ==> is_digit(digits[j]) {
                    lemma_digits_value_grows(digits, i + 1 - start);
                }
            }
            return None;
        }
        acc = next;
        i += 1;
    }
    assert(digits.take(i - start) =~= digits);
    Some(acc as u32)
}

/// Whether `c` is a letter or a digit, as Unicode has it.
pub uninterp spec fn alphanumeric(c: char) -> bool;

/// `s` in lower case, as Unicode has it.
pub uninterp spec fn lowercase(s: Seq<char>) -> Seq<char>;

/// Tells whether a character is a letter or a digit.
///
/// Wraps `char::is_alphanumeric`, whose answer depends on the character
/// alone; the contract gives that answer its name.
#[verifier::external_body]
pub(crate) fn is_alphanumeric(c: char) -> (b: bool)
    ensures
        b == alphanumeric(c),
{
    c.is_alphanumeric()
}

/// Turns a text into lower case.
///
/// Wraps `str::to_lowercase`, whose result depends on the text alone; the
/// contract gives that result its name.
#[verifier::external_body]
pub(crate) fn to_lowercase(s: &str) -> (r: String)
    ensures
        r@ == lowercase(s@),
{
    s.to_lowercase()
}

} // verus!
