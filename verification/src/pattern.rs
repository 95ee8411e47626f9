//! Regular-expression matching, as the `regex` crate performs it.
use regex::Regex;
use vstd::prelude::*;

use crate::text::{is_bengali_digit, is_ws};

verus! {

/// What `Regex::new(pattern)` then `captures(haystack)` yields: `None` when the
/// pattern does not compile or does not match, otherwise the text of each group
/// (group 0 first), `None` for a group that took no part in the match.
pub uninterp spec fn regex_capture_groups(pattern: Seq<char>, haystack: Seq<char>) -> Option<Seq<Option<Seq<char>>>>;

/// What `Regex::new(pattern)` then `is_match(haystack)` yields, `false` when the
/// pattern does not compile.
pub uninterp spec fn regex_is_match(pattern: Seq<char>, haystack: Seq<char>) -> bool;

/// The views of captured group texts.
pub open spec fn group_views(g: Seq<Option<String>>) -> Seq<Option<Seq<char>>> {
    g.map_values(|o: Option<String>| match o {
        Some(s) => Some(s@),
        None => None,
    })
}

/// `s` is a run of exactly `n` Bengali digits.
pub open spec fn bengali_digit_run(s: Seq<char>, n: nat) -> bool {
    s.len() == n && forall|i: int| 0 <= i < s.len() ==> is_bengali_digit(#[trigger] s[i])
}

/// The pattern of a plate's bottom line: two Bengali digits, a separator of
/// whitespace around at most one dash, and four Bengali digits.
pub open spec fn bottom_line_pattern() -> Seq<char> {
    "([০-৯]{2})\\s*[-—–\\s]\\s*([০-৯]{4})"@
}

/// The pattern that accepts a whole word of six Bengali digits, optionally
/// split `XX-XXXX` by one hyphen.
pub open spec fn bottom_word_pattern() -> Seq<char> {
    "^[০-৯]{2}-?[০-৯]{4}$"@
}

/// A dash a bottom line may be split by: `-`, `—` or `–`.
pub open spec fn is_dash(c: char) -> bool {
    c == '-' || c == '\u{2014}' || c == '\u{2013}'
}

/// The end of the run of whitespace and dashes of `h` that starts at `j`.
pub open spec fn separator_end(h: Seq<char>, j: int) -> int
    decreases h.len() - j,
{
    if 0 <= j < h.len() && (is_ws(h[j]) || is_dash(h[j])) {
        separator_end(h, j + 1)
    } else {
        j
    }
}

/// `h[a..b]` holds at most one dash.
pub open spec fn at_most_one_dash(h: Seq<char>, a: int, b: int) -> bool {
    forall|i: int, j: int| #![trigger h[i], h[j]] a <= i < j < b ==> !(is_dash(h[i]) && is_dash(h[j]))
}

/// The bottom-line pattern matches `h` from position `p`: two Bengali digits,
/// a non-empty run of whitespace with at most one dash, four Bengali digits.
pub open spec fn bottom_match_at(h: Seq<char>, p: int) -> bool {
    let q = separator_end(h, p + 2);
    &&& 0 <= p
    &&& p + 2 <= h.len()
    &&& is_bengali_digit(h[p])
    &&& is_bengali_digit(h[p + 1])
    &&& q > p + 2
    &&& at_most_one_dash(h, p + 2, q)
    &&& q + 4 <= h.len()
    &&& forall|i: int| q <= i < q + 4 ==> is_bengali_digit(#[trigger] h[i])
}

/// The first position, from `p` on, where the bottom-line pattern matches.
pub open spec fn first_bottom_match(h: Seq<char>, p: int) -> Option<int>
    decreases h.len() - p,
{
    if p < 0 || p >= h.len() {
        None
    } else if bottom_match_at(h, p) {
        Some(p)
    } else {
        first_bottom_match(h, p + 1)
    }
}

/// The two digit groups the bottom-line pattern captures in `h`, at its
/// leftmost match.
pub open spec fn bottom_digit_groups(h: Seq<char>) -> Option<(Seq<char>, Seq<char>)> {
    match first_bottom_match(h, 0) {
        Some(p) => {
            let q = separator_end(h, p + 2);
            Some((h.subrange(p, p + 2), h.subrange(q, q + 4)))
        },
        None => None,
    }
}

/// Compiles `pattern` with `regex::Regex::new` and runs `Regex::captures` on
/// `haystack`. The result is the named `regex_capture_groups`. For the
/// bottom-line pattern the contract adds what its syntax means, with `\s` the
/// Unicode `White_Space` class and the match the leftmost one: a match has
/// groups 0 to 2, and groups 1 and 2 are the digit groups of
/// `bottom_digit_groups`; there is no match exactly when that has none.
#[verifier::external_body]
pub(crate) fn regex_captures(pattern: &str, haystack: &str) -> (r: Option<Vec<Option<String>>>)
    ensures
        match r {
            Some(g) => regex_capture_groups(pattern@, haystack@) == Some(group_views(g@)),
            None => regex_capture_groups(pattern@, haystack@) is None,
        },
        pattern@ == bottom_line_pattern() ==> match r {
            Some(g) => {
                &&& g@.len() == 3
                &&& bottom_digit_groups(haystack@) matches Some((x, y))
                &&& g@[1] matches Some(a) && a@ == x
                &&& g@[2] matches Some(b) && b@ == y
            },
            None => bottom_digit_groups(haystack@) is None,
        },
{
    let re = match Regex::new(pattern) {
        Ok(re) => re,
        Err(_) => return None,
    };
    let caps = re.captures(haystack)?;
    let mut groups: Vec<Option<String>> = Vec::new();
    for m in caps.iter() {
        groups.push(match m {
            Some(m) => Some(m.as_str().to_string()),
            None => None,
        });
    }
    Some(groups)
}

/// The pattern that finds the letter `c` standing alone: preceded by the
/// start, whitespace or `-`, and followed by the end, whitespace or `-`.
pub open spec fn class_mark_pattern(c: char) -> Seq<char> {
    "(?:^|[\\s-])(?:"@ + seq![c] + ")(?:[\\s-]|$)"@
}

/// `w` is six Bengali digits, or two Bengali digits, a hyphen and four
/// Bengali digits.
pub open spec fn is_bottom_word(w: Seq<char>) -> bool {
    ||| w.len() == 6 && forall|i: int| 0 <= i < 6 ==> is_bengali_digit(#[trigger] w[i])
    ||| w.len() == 7 && w[2] == '-' && forall|i: int|
        0 <= i < 7 && i != 2 ==> is_bengali_digit(#[trigger] w[i])
}

/// `c` occurs in `h` with the start, whitespace or `-` before it and the end,
/// whitespace or `-` after it.
pub open spec fn stands_alone(h: Seq<char>, c: char) -> bool {
    exists|i: int|
        0 <= i < h.len() && #[trigger] h[i] == c && (i == 0 || is_ws(h[i - 1]) || h[i - 1] == '-') && (
        i + 1 == h.len() || is_ws(h[i + 1]) || h[i + 1] == '-')
}

/// Compiles `pattern` with `regex::Regex::new` and runs `Regex::is_match` on
/// `haystack`; the result is the named `regex_is_match`. For the two fixed
/// patterns of the plate check the contract adds what their syntax means, with
/// `\s` the Unicode `White_Space` class: the anchored six-digit pattern
/// matches exactly a whole bottom word, and the class-mark pattern of a letter
/// of the Bengali block matches exactly where that letter stands alone.
#[verifier::external_body]
pub(crate) fn regex_matches(pattern: &str, haystack: &str) -> (b: bool)
    ensures
        b == regex_is_match(pattern@, haystack@),
        pattern@ == bottom_word_pattern() ==> (b == is_bottom_word(haystack@)),
        forall|c: char|
            '\u{980}' <= c && c <= '\u{9ff}' && pattern@ == #[trigger] class_mark_pattern(c) ==> (b
                == stands_alone(haystack@, c)),
{
    match Regex::new(pattern) {
        Ok(re) => re.is_match(haystack),
        Err(_) => false,
    }
}


proof fn lemma_first_bottom_match(h: Seq<char>, p: int)
    ensures
        first_bottom_match(h, p) matches Some(i) ==> p <= i && bottom_match_at(h, i),
    decreases h.len() - p,
{
    if 0 <= p < h.len() && !bottom_match_at(h, p) {
        lemma_first_bottom_match(h, p + 1);
    }
}

/// The groups the bottom-line pattern captures are runs of two and of four
/// Bengali digits.
pub proof fn lemma_bottom_groups_are_digit_runs(h: Seq<char>)
    ensures
        bottom_digit_groups(h) matches Some((x, y)) ==> bengali_digit_run(x, 2) && bengali_digit_run(y, 4),
{
    lemma_first_bottom_match(h, 0);
    if let Some(p) = first_bottom_match(h, 0) {
        let q = separator_end(h, p + 2);
        let x = h.subrange(p, p + 2);
        let y = h.subrange(q, q + 4);
        assert forall|i: int| 0 <= i < x.len() implies is_bengali_digit(#[trigger] x[i]) by {
            assert(x[i] == h[p + i]);
        }
        assert forall|i: int| 0 <= i < y.len() implies is_bengali_digit(#[trigger] y[i]) by {
            assert(y[i] == h[q + i]);
        }
    }
}

/// Two digits, a hyphen and four digits make a plate number.
pub proof fn lemma_digit_runs_make_plate_number(head: Seq<char>, tail: Seq<char>)
    requires
        bengali_digit_run(head, 2),
        bengali_digit_run(tail, 4),
    ensures
        crate::plate::is_plate_number(head + seq!['-'] + tail),
{
    let s = head + seq!['-'] + tail;
    assert forall|i: int| 0 <= i < 7 && i != 2 implies is_bengali_digit(#[trigger] s[i]) by {
        if i < 2 {
            assert(s[i] == head[i]);
        } else {
            assert(s[i] == tail[i - 3]);
        }
    }
}

} // verus!
