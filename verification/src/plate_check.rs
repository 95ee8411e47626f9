//! The first-generation plate check: a plate text is accepted when it names a
//! district, shows a separated class letter and has a six-digit word.
use vstd::prelude::*;

use crate::pattern::{bottom_word_pattern, class_mark_pattern, is_bottom_word, regex_matches, stands_alone};
use crate::text::{chars_of, split_words, string_of, trim, trim_chars, view_all, words};

verus! {

/// The number of districts the legacy check knows.
pub const LEGACY_DISTRICT_COUNT: usize = 11;

/// The number of class letters the legacy check knows.
pub const LEGACY_CLASS_COUNT: usize = 28;

/// The district names the legacy check looks for.
pub open spec fn legacy_district(k: int) -> Seq<char> {
    if k == 0 {
        // ঢাকা
        seq!['\u{9a2}', '\u{9be}', '\u{995}', '\u{9be}']
    } else if k == 1 {
        // চট্ট
        seq!['\u{99a}', '\u{99f}', '\u{9cd}', '\u{99f}']
    } else if k == 2 {
        // সিলেট
        seq!['\u{9b8}', '\u{9bf}', '\u{9b2}', '\u{9c7}', '\u{99f}']
    } else if k == 3 {
        // রাজশাহী
        seq!['\u{9b0}', '\u{9be}', '\u{99c}', '\u{9b6}', '\u{9be}', '\u{9b9}', '\u{9c0}']
    } else if k == 4 {
        // খুলনা
        seq!['\u{996}', '\u{9c1}', '\u{9b2}', '\u{9a8}', '\u{9be}']
    } else if k == 5 {
        // বরিশাল
        seq!['\u{9ac}', '\u{9b0}', '\u{9bf}', '\u{9b6}', '\u{9be}', '\u{9b2}']
    } else if k == 6 {
        // রংপুর
        seq!['\u{9b0}', '\u{982}', '\u{9aa}', '\u{9c1}', '\u{9b0}']
    } else if k == 7 {
        // ময়মনসিংহ
        seq!['\u{9ae}', '\u{9af}', '\u{9bc}', '\u{9ae}', '\u{9a8}', '\u{9b8}', '\u{9bf}', '\u{982}', '\u{9b9}']
    } else if k == 8 {
        // গাজীপুর
        seq!['\u{997}', '\u{9be}', '\u{99c}', '\u{9c0}', '\u{9aa}', '\u{9c1}', '\u{9b0}']
    } else if k == 9 {
        // কুমিল্লা
        seq!['\u{995}', '\u{9c1}', '\u{9ae}', '\u{9bf}', '\u{9b2}', '\u{9cd}', '\u{9b2}', '\u{9be}']
    } else if k == 10 {
        // নারায়ণগঞ্জ
        seq!['\u{9a8}', '\u{9be}', '\u{9b0}', '\u{9be}', '\u{9af}', '\u{9bc}', '\u{9a3}', '\u{997}', '\u{99e}', '\u{9cd}', '\u{99c}']
    } else {
        Seq::empty()
    }
}

fn legacy_district_chars(k: usize) -> (v: Vec<char>)
    requires
        k < LEGACY_DISTRICT_COUNT,
    ensures
        v@ == legacy_district(k as int),
{
    match k {
        0 => vec!['\u{9a2}', '\u{9be}', '\u{995}', '\u{9be}'],
        1 => vec!['\u{99a}', '\u{99f}', '\u{9cd}', '\u{99f}'],
        2 => vec!['\u{9b8}', '\u{9bf}', '\u{9b2}', '\u{9c7}', '\u{99f}'],
        3 => vec!['\u{9b0}', '\u{9be}', '\u{99c}', '\u{9b6}', '\u{9be}', '\u{9b9}', '\u{9c0}'],
        4 => vec!['\u{996}', '\u{9c1}', '\u{9b2}', '\u{9a8}', '\u{9be}'],
        5 => vec!['\u{9ac}', '\u{9b0}', '\u{9bf}', '\u{9b6}', '\u{9be}', '\u{9b2}'],
        6 => vec!['\u{9b0}', '\u{982}', '\u{9aa}', '\u{9c1}', '\u{9b0}'],
        7 => vec!['\u{9ae}', '\u{9af}', '\u{9bc}', '\u{9ae}', '\u{9a8}', '\u{9b8}', '\u{9bf}', '\u{982}', '\u{9b9}'],
        8 => vec!['\u{997}', '\u{9be}', '\u{99c}', '\u{9c0}', '\u{9aa}', '\u{9c1}', '\u{9b0}'],
        9 => vec!['\u{995}', '\u{9c1}', '\u{9ae}', '\u{9bf}', '\u{9b2}', '\u{9cd}', '\u{9b2}', '\u{9be}'],
        10 => vec!['\u{9a8}', '\u{9be}', '\u{9b0}', '\u{9be}', '\u{9af}', '\u{9bc}', '\u{9a3}', '\u{997}', '\u{99e}', '\u{9cd}', '\u{99c}'],
        _ => Vec::new(),
    }
}

/// The class letters the legacy check looks for: ক খ গ ঘ চ ছ জ ঝ ট ঠ ড ঢ ত থ দ ধ ন প ফ ব ভ ম য র ল শ স হ.
pub open spec fn legacy_class(k: int) -> char {
    if k == 0 {
        '\u{995}'
    } else if k == 1 {
        '\u{996}'
    } else if k == 2 {
        '\u{997}'
    } else if k == 3 {
        '\u{998}'
    } else if k == 4 {
        '\u{99a}'
    } else if k == 5 {
        '\u{99b}'
    } else if k == 6 {
        '\u{99c}'
    } else if k == 7 {
        '\u{99d}'
    } else if k == 8 {
        '\u{99f}'
    } else if k == 9 {
        '\u{9a0}'
    } else if k == 10 {
        '\u{9a1}'
    } else if k == 11 {
        '\u{9a2}'
    } else if k == 12 {
        '\u{9a4}'
    } else if k == 13 {
        '\u{9a5}'
    } else if k == 14 {
        '\u{9a6}'
    } else if k == 15 {
        '\u{9a7}'
    } else if k == 16 {
        '\u{9a8}'
    } else if k == 17 {
        '\u{9aa}'
    } else if k == 18 {
        '\u{9ab}'
    } else if k == 19 {
        '\u{9ac}'
    } else if k == 20 {
        '\u{9ad}'
    } else if k == 21 {
        '\u{9ae}'
    } else if k == 22 {
        '\u{9af}'
    } else if k == 23 {
        '\u{9b0}'
    } else if k == 24 {
        '\u{9b2}'
    } else if k == 25 {
        '\u{9b6}'
    } else if k == 26 {
        '\u{9b8}'
    } else if k == 27 {
        '\u{9b9}'
    } else {
        ' '
    }
}

fn legacy_class_char(k: usize) -> (c: char)
    requires
        k < LEGACY_CLASS_COUNT,
    ensures
        c == legacy_class(k as int),
{
    match k {
        0 => '\u{995}',
        1 => '\u{996}',
        2 => '\u{997}',
        3 => '\u{998}',
        4 => '\u{99a}',
        5 => '\u{99b}',
        6 => '\u{99c}',
        7 => '\u{99d}',
        8 => '\u{99f}',
        9 => '\u{9a0}',
        10 => '\u{9a1}',
        11 => '\u{9a2}',
        12 => '\u{9a4}',
        13 => '\u{9a5}',
        14 => '\u{9a6}',
        15 => '\u{9a7}',
        16 => '\u{9a8}',
        17 => '\u{9aa}',
        18 => '\u{9ab}',
        19 => '\u{9ac}',
        20 => '\u{9ad}',
        21 => '\u{9ae}',
        22 => '\u{9af}',
        23 => '\u{9b0}',
        24 => '\u{9b2}',
        25 => '\u{9b6}',
        26 => '\u{9b8}',
        27 => '\u{9b9}',
        _ => ' ',
    }
}

/// `needle` occurs in `text`.
pub open spec fn contains_chars(text: Seq<char>, needle: Seq<char>) -> bool {
    exists|i: int|
        0 <= i && i + needle.len() <= text.len() && #[trigger] text.subrange(i, i + needle.len())
            == needle
}

/// `text` names one of the districts of the legacy check.
pub open spec fn names_legacy_district(text: Seq<char>) -> bool {
    exists|k: int| 0 <= k < LEGACY_DISTRICT_COUNT && contains_chars(text, #[trigger] legacy_district(k))
}

/// Some class letter of the legacy check stands alone in `text`.
pub open spec fn has_class_mark(text: Seq<char>) -> bool {
    exists|k: int| 0 <= k < LEGACY_CLASS_COUNT && stands_alone(text, #[trigger] legacy_class(k))
}

/// Some whitespace-separated word of `text` is a six-digit bottom line.
pub open spec fn has_bottom_word(text: Seq<char>) -> bool {
    exists|i: int| 0 <= i < words(text).len() && is_bottom_word(#[trigger] words(text)[i])
}

/// The legacy verdict on `text`, given whether a class letter and a bottom-line
/// word were found in its trimmed form.
pub open spec fn legacy_verdict(text: Seq<char>, class_marked: bool, bottom_found: bool) -> bool {
    let t = trim(text);
    t.len() > 0 && names_legacy_district(t) && class_marked && bottom_found
}

/// The legacy plate check on `text`.
pub open spec fn legacy_plate_valid(text: Seq<char>) -> bool {
    let t = trim(text);
    legacy_verdict(text, has_class_mark(t), has_bottom_word(t))
}

/// The class letters of the first-generation check, in its order.
pub open spec fn listed_class_letters() -> Seq<char> {
    seq![
        'ক', 'খ', 'গ', 'ঘ', 'চ', 'ছ', 'জ', 'ঝ', 'ট', 'ঠ', 'ড', 'ঢ', 'ত', 'থ', 'দ', 'ধ', 'ন', 'প', 'ফ', 'ব',
        'ভ', 'ম', 'য', 'র', 'ল', 'শ', 'স', 'হ',
    ]
}

proof fn lemma_listed_class_letters(k: int)
    requires
        0 <= k < 28,
    ensures
        listed_class_letters().len() == 28,
        legacy_class(k) == listed_class_letters()[k],
{
}

/// A text is accepted when, in its trimmed form, it names a known district,
/// has a six-digit word, and any one of the listed class letters — the first
/// one, ক, included — stands alone; and a class letter is only ever found
/// standing alone when it is one of the listed letters.
pub proof fn law_every_listed_class_letter_counts(text: Seq<char>, c: char)
    ensures
        listed_class_letters().contains(c) && stands_alone(trim(text), c) && names_legacy_district(trim(text))
            && has_bottom_word(trim(text)) ==> legacy_plate_valid(text),
        has_class_mark(trim(text)) ==> exists|i: int|
            0 <= i < 28 && stands_alone(trim(text), #[trigger] listed_class_letters()[i]),
{
    if listed_class_letters().contains(c) && stands_alone(trim(text), c) {
        let k = choose|k: int| 0 <= k < listed_class_letters().len() && listed_class_letters()[k] == c;
        lemma_listed_class_letters(k);
        assert(has_class_mark(trim(text)));
    }
    if has_class_mark(trim(text)) {
        let k = choose|k: int| 0 <= k < LEGACY_CLASS_COUNT && stands_alone(trim(text), #[trigger] legacy_class(k));
        lemma_listed_class_letters(k);
        assert(stands_alone(trim(text), listed_class_letters()[k]));
    }
}

fn contains_at(text: &[char], needle: &[char], i: usize) -> (r: bool)
    requires
        i + needle@.len() <= text@.len(),
    ensures
        r == (text@.subrange(i as int, i + needle@.len()) == needle@),
{
    let mut j: usize = 0;
    while j < needle.len()
        invariant
            i + needle@.len() <= text@.len(),
            text@.len() == text.len(),
            needle@.len() == needle.len(),
            j <= needle@.len(),
            forall|k: int| 0 <= k < j ==> text@[i + k] == needle@[k],
        decreases needle@.len() - j,
    {
        if text[i + j] != needle[j] {
            assert(text@.subrange(i as int, i + needle@.len())[j as int] != needle@[j as int]);
            return false;
        }
        j = j + 1;
    }
    assert(text@.subrange(i as int, i + needle@.len()) =~= needle@);
    true
}

/// `needle` occurs in `text`.
pub fn contains_chars_exec(text: &[char], needle: &[char]) -> (r: bool)
    ensures
        r == contains_chars(text@, needle@),
{
    if needle.len() > text.len() {
        return false;
    }
    let last = text.len() - needle.len();
    let mut i: usize = 0;
    loop
        invariant
            last == text@.len() - needle@.len(),
            needle@.len() <= text@.len(),
            i <= last,
            forall|k: int| 0 <= k < i ==> #[trigger] text@.subrange(k, k + needle@.len()) != needle@,
        decreases last - i,
    {
        if contains_at(text, needle, i) {
            return true;
        }
        if i == last {
            return false;
        }
        i = i + 1;
    }
}

fn names_district_exec(t: &[char]) -> (r: bool)
    ensures
        r == names_legacy_district(t@),
{
    let mut k: usize = 0;
    while k < LEGACY_DISTRICT_COUNT
        invariant
            k <= LEGACY_DISTRICT_COUNT,
            forall|j: int| 0 <= j < k ==> !contains_chars(t@, #[trigger] legacy_district(j)),
        decreases LEGACY_DISTRICT_COUNT - k,
    {
        let d = legacy_district_chars(k);
        if contains_chars_exec(t, d.as_slice()) {
            return true;
        }
        k = k + 1;
    }
    false
}

/// The legacy verdict on `text` once the class-letter and bottom-line searches
/// have answered.
pub fn legacy_plate_verdict(text: &str, class_marked: bool, bottom_found: bool) -> (r: bool)
    ensures
        r == legacy_verdict(text@, class_marked, bottom_found),
{
    let chars = chars_of(text);
    let t = trim_chars(chars.as_slice());
    if t.len() == 0 {
        return false;
    }
    let has_district = names_district_exec(t.as_slice());
    has_district && class_marked && bottom_found
}

fn class_mark_pattern_text(c: char) -> (r: String)
    ensures
        r@ == class_mark_pattern(c),
{
    let mut p = String::from_str("(?:^|[\\s-])(?:");
    p.push(c);
    p.append(")(?:[\\s-]|$)");
    p
}

fn find_class_mark(trimmed: &str) -> (r: bool)
    ensures
        r == has_class_mark(trimmed@),
{
    let mut k: usize = 0;
    while k < LEGACY_CLASS_COUNT
        invariant
            k <= LEGACY_CLASS_COUNT,
            forall|j: int|
                0 <= j < k ==> !stands_alone(trimmed@, #[trigger] legacy_class(j)),
        decreases LEGACY_CLASS_COUNT - k,
    {
        let pattern = class_mark_pattern_text(legacy_class_char(k));
        if regex_matches(pattern.as_str(), trimmed) {
            return true;
        }
        k = k + 1;
    }
    false
}

fn find_bottom_word(t: &[char]) -> (r: bool)
    ensures
        r == has_bottom_word(t@),
{
    let word_pattern = "^[০-৯]{2}-?[০-৯]{4}$";
    assert(word_pattern@ == bottom_word_pattern());
    let ws = split_words(t);
    let mut i: usize = 0;
    while i < ws.len()
        invariant
            i <= ws@.len(),
            view_all(ws@) == words(t@),
            word_pattern@ == bottom_word_pattern(),
            forall|j: int| 0 <= j < i ==> !is_bottom_word(#[trigger] words(t@)[j]),
        decreases ws@.len() - i,
    {
        let w = string_of(&ws[i]);
        assert(w@ == words(t@)[i as int]);
        if regex_matches(word_pattern, w.as_str()) {
            return true;
        }
        i = i + 1;
    }
    false
}

/// Checks a recognised plate text the first-generation way: a known district,
/// a class letter standing alone and a six-digit word, all in the trimmed text.
pub fn validate_bangla_license_plate(text: &str) -> (r: bool)
    ensures
        r == legacy_plate_valid(text@),
{
    let chars = chars_of(text);
    let t = trim_chars(chars.as_slice());
    let trimmed = string_of(&t);
    let has_class = find_class_mark(trimmed.as_str());
    let has_bottom = find_bottom_word(t.as_slice());
    legacy_plate_verdict(text, has_class, has_bottom)
}

} // verus!
