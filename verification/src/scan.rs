//! Scanning the text of a resource: whitespace-separated tokens and
//! unsigned decimal numerals, each with the mathematical function it
//! computes.

use vstd::prelude::*;

verus! {

/// Which characters separate tokens.
#[derive(Debug, Copy, Clone, PartialEq, Eq, Structural)]
pub enum Spacing {
    /// ASCII whitespace only.
    Ascii,
    /// Every character that Unicode classes as white space.
    Unicode,
}

/// ASCII whitespace: space, tab, line feed, form feed, carriage return.
pub open spec fn is_ascii_space(c: char) -> bool {
    c == ' ' || c == '\t' || c == '\n' || c == '\x0c' || c == '\r'
}

/// The characters with the Unicode property `White_Space`.
pub open spec fn is_unicode_space(c: char) -> bool {
    let code = c as u32;
    ||| 0x09 <= code <= 0x0d
    ||| code == 0x20
    ||| code == 0x85
    ||| code == 0xa0
    ||| code == 0x1680
    ||| 0x2000 <= code <= 0x200a
    ||| code == 0x2028
    ||| code == 0x2029
    ||| code == 0x202f
    ||| code == 0x205f
    ||| code == 0x3000
}

/// Whether `c` separates tokens under the given spacing.
pub open spec fn separates(spacing: Spacing, c: char) -> bool {
    match spacing {
        Spacing::Ascii => is_ascii_space(c),
        Spacing::Unicode => is_unicode_space(c),
    }
}

/// Whether a character separates tokens under the given spacing.
pub fn is_separator(spacing: Spacing, c: char) -> (r: bool)
    ensures
        r == separates(spacing, c),
{
    match spacing {
        Spacing::Ascii => c == ' ' || c == '\t' || c == '\n' || c == '\x0c' || c == '\r',
        Spacing::Unicode => {
            let code = c as u32;
            (0x09 <= code && code <= 0x0d) || code == 0x20 || code == 0x85 || code == 0xa0 || code
                == 0x1680 || (0x2000 <= code && code <= 0x200a) || code == 0x2028 || code == 0x2029
                || code == 0x202f || code == 0x205f || code == 0x3000
        },
    }
}

/// The state of a left-to-right scan for tokens: the tokens already closed
/// by a separator, and the characters of the token still open (empty
/// between tokens).
pub open spec fn token_scan(s: Seq<char>, spacing: Spacing) -> (Seq<Seq<char>>, Seq<char>)
    decreases s.len(),
{
    if s.len() == 0 {
        (Seq::empty(), Seq::empty())
    } else {
        let (done, open) = token_scan(s.drop_last(), spacing);
        if separates(spacing, s.last()) {
            if open.len() > 0 {
                (done.push(open), Seq::empty())
            } else {
                (done, open)
            }
        } else {
            (done, open.push(s.last()))
        }
    }
}

/// The maximal runs of `s` that hold no separator, in order.
pub open spec fn tokens(s: Seq<char>, spacing: Spacing) -> Seq<Seq<char>> {
    let (done, open) = token_scan(s, spacing);
    if open.len() > 0 {
        done.push(open)
    } else {
        done
    }
}

/// Whether `run` holds at least one character and no separator.
pub open spec fn is_run(run: Seq<char>, spacing: Spacing) -> bool {
    &&& run.len() > 0
    &&& forall|j: int| 0 <= j < run.len() ==> !separates(spacing, #[trigger] run[j])
}

/// Every token that a scan has closed is a run, and the open token holds
/// no separator.
proof fn lemma_token_scan_runs(s: Seq<char>, spacing: Spacing)
    ensures
        forall|k: int|
            0 <= k < token_scan(s, spacing).0.len() ==> is_run(
                #[trigger] token_scan(s, spacing).0[k],
                spacing,
            ),
        forall|j: int|
            0 <= j < token_scan(s, spacing).1.len() ==> !separates(
                spacing,
                #[trigger] token_scan(s, spacing).1[j],
            ),
    decreases s.len(),
{
    if s.len() > 0 {
        let before = token_scan(s.drop_last(), spacing);
        let after = token_scan(s, spacing);
        lemma_token_scan_runs(s.drop_last(), spacing);
        if separates(spacing, s.last()) {
            if before.1.len() > 0 {
                assert(is_run(before.1, spacing));
                assert forall|k: int| 0 <= k < after.0.len() implies is_run(
                    #[trigger] after.0[k],
                    spacing,
                ) by {
                    if k < before.0.len() {
                        assert(after.0[k] == before.0[k]);
                    }
                }
            }
        } else {
            assert forall|j: int| 0 <= j < after.1.len() implies !separates(
                spacing,
                #[trigger] after.1[j],
            ) by {
                if j < before.1.len() {
                    assert(after.1[j] == before.1[j]);
                }
            }
        }
    }
}

/// Every token holds at least one character and no separator.
pub proof fn lemma_tokens_are_runs(s: Seq<char>, spacing: Spacing)
    ensures
        forall|k: int|
            0 <= k < tokens(s, spacing).len() ==> is_run(#[trigger] tokens(s, spacing)[k], spacing),
{
    lemma_token_scan_runs(s, spacing);
}

/// Whether `spans` delimits exactly the sequences `parts` inside `s`.
pub(crate) open spec fn spans_match(
    s: Seq<char>,
    spans: Seq<(usize, usize)>,
    parts: Seq<Seq<char>>,
) -> bool {
    &&& spans.len() == parts.len()
    &&& forall|k: int|
        0 <= k < spans.len() ==> {
            &&& (#[trigger] spans[k]).0 <= spans[k].1 <= s.len()
            &&& s.subrange(spans[k].0 as int, spans[k].1 as int) == parts[k]
        }
}

/// Splits `s` at its separators and returns the half-open index range of
/// every token.
pub(crate) fn split_tokens(s: &[char], spacing: Spacing) -> (spans: Vec<(usize, usize)>)
    ensures
        spans_match(s@, spans@, tokens(s@, spacing)),
{
    let mut spans: Vec<(usize, usize)> = Vec::new();
    let mut start: usize = 0;
    let mut i: usize = 0;
    while i < s.len()
        invariant
            start <= i <= s.len(),
            spans_match(s@, spans@, token_scan(s@.take(i as int), spacing).0),
            token_scan(s@.take(i as int), spacing).1 == s@.subrange(start as int, i as int),
        decreases s.len() - i,
    {
        let ghost before = token_scan(s@.take(i as int), spacing);
        assert(s@.take(i + 1).drop_last() =~= s@.take(i as int));
        if is_separator(spacing, s[i]) {
            if start < i {
                spans.push((start, i));
                assert(spans_match(s@, spans@, before.0.push(before.1)));
            }
            start = i + 1;
        }
        i += 1;
    }
    assert(s@.take(s@.len() as int) =~= s@);
    if start < i {
        let ghost before = token_scan(s@, spacing);
        spans.push((start, i));
        assert(spans_match(s@, spans@, before.0.push(before.1)));
    }
    spans
}

/// An ASCII decimal digit.
pub open spec fn is_digit(c: char) -> bool {
    '0' <= c <= '9'
}

/// Whether every character is a decimal digit.
pub open spec fn all_digits(s: Seq<char>) -> bool {
    forall|i: int| 0 <= i < s.len() ==> is_digit(#[trigger] s[i])
}

/// The number that a string of decimal digits denotes, most significant
/// digit first.
pub open spec fn digits_value(s: Seq<char>) -> nat
    decreases s.len(),
{
    if s.len() == 0 {
        0
    } else {
        digits_value(s.drop_last()) * 10 + (s.last() as u32 - '0' as u32) as nat
    }
}

/// The value of an unsigned decimal numeral: an optional `+` followed by
/// one or more digits and nothing else. Leading zeros are allowed.
pub open spec fn unsigned_decimal(s: Seq<char>) -> Option<nat> {
    let digits = if s.len() > 0 && s[0] == '+' {
        s.drop_first()
    } else {
        s
    };
    if digits.len() > 0 && all_digits(digits) {
        Some(digits_value(digits))
    } else {
        None
    }
}

/// The value of a numeral when it is at most `max`.
pub open spec fn bounded_decimal(s: Seq<char>, max: u32) -> Option<u32> {
    match unsigned_decimal(s) {
        Some(v) => if v <= max {
            Some(v as u32)
        } else {
            None
        },
        None => None,
    }
}

/// Whether the characters `s[from..to]` are an unsigned decimal numeral,
/// of whatever size.
pub fn is_numeral(s: &[char], from: usize, to: usize) -> (r: bool)
    requires
        from <= to <= s@.len(),
    ensures
        r == unsigned_decimal(s@.subrange(from as int, to as int)) is Some,
{
    let ghost token = s@.subrange(from as int, to as int);
    let first: usize = if from < to && s[from] == '+' {
        from + 1
    } else {
        from
    };
    let ghost digits = s@.subrange(first as int, to as int);
    assert(digits =~= if token.len() > 0 && token[0] == '+' {
        token.drop_first()
    } else {
        token
    });
    if first == to {
        return false;
    }
    let mut i: usize = first;
    while i < to
        invariant
            from <= first <= i <= to <= s@.len(),
            first < to,
            digits == s@.subrange(first as int, to as int),
            unsigned_decimal(s@.subrange(from as int, to as int)) is Some == all_digits(digits),
            forall|j: int| 0 <= j < i - first ==> is_digit(#[trigger] digits[j]),
        decreases to - i,
    {
        let c = s[i];
        assert(c == digits[i - first]);
        if c < '0' || c > '9' {
            return false;
        }
        i += 1;
    }
    true
}

/// Reading more digits never makes the number smaller.
pub proof fn lemma_digits_value_prefix(s: Seq<char>, k: int)
    requires
        0 <= k <= s.len(),
        all_digits(s),
    ensures
        digits_value(s.take(k)) <= digits_value(s),
    decreases s.len(),
{
    if k == s.len() {
        assert(s.take(k) =~= s);
    } else {
        assert(s.drop_last().take(k) =~= s.take(k));
        lemma_digits_value_prefix(s.drop_last(), k);
    }
}

/// Parses the characters `s[from..to]` as an unsigned decimal numeral no
/// larger than `max`.
pub fn parse_bounded(s: &[char], from: usize, to: usize, max: u32) -> (r: Option<u32>)
    requires
        from <= to <= s@.len(),
    ensures
        r == bounded_decimal(s@.subrange(from as int, to as int), max),
{
    let ghost token = s@.subrange(from as int, to as int);
    let first: usize = if from < to && s[from] == '+' {
        from + 1
    } else {
        from
    };
    let ghost digits = s@.subrange(first as int, to as int);
    assert(digits =~= if token.len() > 0 && token[0] == '+' {
        token.drop_first()
    } else {
        token
    });
    if first == to {
        return None;
    }
    let mut value: u64 = 0;
    let mut i: usize = first;
    while i < to
        invariant
            first <= i <= to <= s@.len(),
            from <= first,
            digits == s@.subrange(first as int, to as int),
            unsigned_decimal(s@.subrange(from as int, to as int)) == if all_digits(digits) {
                Some(digits_value(digits))
            } else {
                None
            },
            all_digits(digits.take(i - first)),
            value == digits_value(digits.take(i - first)),
            value <= max,
        decreases to - i,
    {
        let c = s[i];
        assert(c == digits[i - first]);
        if c < '0' || c > '9' {
            return None;
        }
        assert(digits.take(i - first + 1).drop_last() =~= digits.take(i - first));
        assert(all_digits(digits.take(i - first + 1)));
        let next: u64 = value * 10 + (c as u32 - '0' as u32) as u64;
        if next > max as u64 {
            proof {
                if all_digits(digits) {
                    lemma_digits_value_prefix(digits, i - first + 1);
                }
            }
            return None;
        }
        value = next;
        i += 1;
    }
    assert(digits.take(to - first) =~= digits);
    Some(value as u32)
}

/// Whether `i` is the position of the first line feed of `s`.
pub open spec fn is_first_newline(s: Seq<char>, i: int) -> bool {
    &&& 0 <= i < s.len()
    &&& s[i] == '\n'
    &&& forall|j: int| 0 <= j < i ==> s[j] != '\n'
}

/// The position of the first line feed of `s`, if it has one.
pub open spec fn first_newline(s: Seq<char>) -> Option<int> {
    if exists|i: int| is_first_newline(s, i) {
        Some(choose|i: int| is_first_newline(s, i))
    } else {
        None
    }
}

/// There is at most one first line feed.
pub proof fn lemma_first_newline_unique(s: Seq<char>, i: int)
    requires
        is_first_newline(s, i),
    ensures
        first_newline(s) == Some(i),
{
}

/// Finds the first line feed.
pub fn find_newline(s: &[char]) -> (r: Option<usize>)
    ensures
        match r {
            Some(i) => i < s@.len() && first_newline(s@) == Some(i as int),
            None => first_newline(s@) is None,
        },
{
    let mut i: usize = 0;
    while i < s.len()
        invariant
            i <= s.len(),
            forall|j: int| 0 <= j < i ==> s@[j] != '\n',
        decreases s.len() - i,
    {
        if s[i] == '\n' {
            proof {
                lemma_first_newline_unique(s@, i as int);
            }
            return Some(i);
        }
        i += 1;
    }
    None
}

/// The characters of a text.
pub fn chars_of(text: &str) -> (chars: Vec<char>)
    ensures
        chars@ == text@,
{
    let mut chars: Vec<char> = Vec::new();
    for c in it: text.chars()
        invariant
            chars@ == it.seq().take(it.index()),
            it.seq() == text@,
    {
        chars.push(c);
    }
    chars
}

} // verus!
