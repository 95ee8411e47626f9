//! Bangla licence-plate recognition: digit normalisation, district
//! correction and the extraction of a plate from recognised text.
use vstd::prelude::*;

use crate::distance::{edit_distance, lemma_lev_zero_iff_equal, lev};
use crate::pattern::{bottom_digit_groups, bottom_line_pattern, first_bottom_match, regex_captures};
use crate::text::{
    alphabetic, byte_prefix_chars, chars_in_byte_prefix, chars_of, ends_with,
    is_alphabetic, is_ascii_digit, lemma_two_lines, lemma_words_single, lemma_words_space, same_chars, trim, trim_end, trim_start, is_bengali_digit, is_whitespace, is_ws, lines_trimmed,
    slice_chars, split_words, starts_with, string_of, trimmed_lines, utf8_len, utf8_length,
    view_all, words,
};

verus! {

// ---------------------------------------------------------------------------
// Digits
// ---------------------------------------------------------------------------

/// The Bengali digit for an ASCII digit; any other character is kept.
pub open spec fn bengali_digit_of(c: char) -> char {
    if c == '0' {
        '\u{9e6}'
    } else if c == '1' {
        '\u{9e7}'
    } else if c == '2' {
        '\u{9e8}'
    } else if c == '3' {
        '\u{9e9}'
    } else if c == '4' {
        '\u{9ea}'
    } else if c == '5' {
        '\u{9eb}'
    } else if c == '6' {
        '\u{9ec}'
    } else if c == '7' {
        '\u{9ed}'
    } else if c == '8' {
        '\u{9ee}'
    } else if c == '9' {
        '\u{9ef}'
    } else {
        c
    }
}

/// `s` with every ASCII digit replaced by the Bengali digit of the same value.
pub open spec fn normalized(s: Seq<char>) -> Seq<char> {
    s.map_values(|c: char| bengali_digit_of(c))
}

fn bengali_digit(c: char) -> (r: char)
    ensures
        r == bengali_digit_of(c),
{
    match c {
        '0' => '\u{9e6}',
        '1' => '\u{9e7}',
        '2' => '\u{9e8}',
        '3' => '\u{9e9}',
        '4' => '\u{9ea}',
        '5' => '\u{9eb}',
        '6' => '\u{9ec}',
        '7' => '\u{9ed}',
        '8' => '\u{9ee}',
        '9' => '\u{9ef}',
        other => other,
    }
}

fn normalize_chars(s: &[char]) -> (r: Vec<char>)
    ensures
        r@ == normalized(s@),
{
    let mut r: Vec<char> = Vec::new();
    let mut i: usize = 0;
    while i < s.len()
        invariant
            i <= s@.len(),
            r@ == normalized(s@.take(i as int)),
        decreases s@.len() - i,
    {
        r.push(bengali_digit(s[i]));
        i = i + 1;
        assert(r@ =~= normalized(s@.take(i as int)));
    }
    assert(s@.take(s@.len() as int) =~= s@);
    r
}

/// Normalizes English digits (0-9) to Bengali digits (০-৯).
pub fn normalize_digits(s: &str) -> (r: String)
    ensures
        r@ == normalized(s@),
{
    let chars = chars_of(s);
    let v = normalize_chars(chars.as_slice());
    string_of(&v)
}

// ---------------------------------------------------------------------------
// Class letters
// ---------------------------------------------------------------------------

/// The vehicle class letters, the Bengali consonants `ক` to `হ`:
/// ক খ গ ঘ ঙ চ ছ জ ঝ ঞ ট ঠ ড ঢ ণ ত থ দ ধ ন, প ফ ব ভ ম য র, ল, শ ষ স হ.
pub open spec fn is_class_letter(c: char) -> bool {
    ||| ('\u{995}' <= c && c <= '\u{9a8}')
    ||| ('\u{9aa}' <= c && c <= '\u{9b0}')
    ||| c == '\u{9b2}'
    ||| ('\u{9b6}' <= c && c <= '\u{9b9}')
}

fn class_letter(c: char) -> (b: bool)
    ensures
        b == is_class_letter(c),
{
    ('\u{995}' <= c && c <= '\u{9a8}') || ('\u{9aa}' <= c && c <= '\u{9b0}') || c == '\u{9b2}' || (
    '\u{9b6}' <= c && c <= '\u{9b9}')
}

/// The first class letter of `s`.
pub open spec fn find_class(s: Seq<char>) -> Option<char>
    decreases s.len(),
{
    if s.len() == 0 {
        None
    } else if is_class_letter(s[0]) {
        Some(s[0])
    } else {
        find_class(s.drop_first())
    }
}

fn first_class_letter(s: &[char]) -> (r: Option<char>)
    ensures
        r == find_class(s@),
{
    let n = s.len();
    let mut i: usize = 0;
    assert(s@.subrange(0, n as int) =~= s@);
    while i < n
        invariant
            n == s@.len(),
            i <= n,
            find_class(s@) == find_class(s@.subrange(i as int, n as int)),
        decreases n - i,
    {
        if class_letter(s[i]) {
            return Some(s[i]);
        }
        assert(s@.subrange(i as int, n as int).drop_first() =~= s@.subrange(i + 1, n as int));
        i = i + 1;
    }
    None
}

// ---------------------------------------------------------------------------
// Districts
// ---------------------------------------------------------------------------

/// The number of entries of the district table.
pub const DISTRICT_COUNT: usize = 66;

/// The district names that plates carry, in table order (common variants included).
pub open spec fn district(k: int) -> Seq<char> {
    if k == 0 {
        // ঢাকা
        seq!['\u{9a2}', '\u{9be}', '\u{995}', '\u{9be}']
    } else if k == 1 {
        // চট্ট
        seq!['\u{99a}', '\u{99f}', '\u{9cd}', '\u{99f}']
    } else if k == 2 {
        // চট্টগ্রাম
        seq!['\u{99a}', '\u{99f}', '\u{9cd}', '\u{99f}', '\u{997}', '\u{9cd}', '\u{9b0}', '\u{9be}', '\u{9ae}']
    } else if k == 3 {
        // সিলেট
        seq!['\u{9b8}', '\u{9bf}', '\u{9b2}', '\u{9c7}', '\u{99f}']
    } else if k == 4 {
        // খুলনা
        seq!['\u{996}', '\u{9c1}', '\u{9b2}', '\u{9a8}', '\u{9be}']
    } else if k == 5 {
        // রাজশাহী
        seq!['\u{9b0}', '\u{9be}', '\u{99c}', '\u{9b6}', '\u{9be}', '\u{9b9}', '\u{9c0}']
    } else if k == 6 {
        // বরিশাল
        seq!['\u{9ac}', '\u{9b0}', '\u{9bf}', '\u{9b6}', '\u{9be}', '\u{9b2}']
    } else if k == 7 {
        // রংপুর
        seq!['\u{9b0}', '\u{982}', '\u{9aa}', '\u{9c1}', '\u{9b0}']
    } else if k == 8 {
        // ময়মনসিংহ
        seq!['\u{9ae}', '\u{9af}', '\u{9bc}', '\u{9ae}', '\u{9a8}', '\u{9b8}', '\u{9bf}', '\u{982}', '\u{9b9}']
    } else if k == 9 {
        // কুমিল্লা
        seq!['\u{995}', '\u{9c1}', '\u{9ae}', '\u{9bf}', '\u{9b2}', '\u{9cd}', '\u{9b2}', '\u{9be}']
    } else if k == 10 {
        // নোয়াখালী
        seq!['\u{9a8}', '\u{9cb}', '\u{9af}', '\u{9bc}', '\u{9be}', '\u{996}', '\u{9be}', '\u{9b2}', '\u{9c0}']
    } else if k == 11 {
        // ফরিদপুর
        seq!['\u{9ab}', '\u{9b0}', '\u{9bf}', '\u{9a6}', '\u{9aa}', '\u{9c1}', '\u{9b0}']
    } else if k == 12 {
        // যশোর
        seq!['\u{9af}', '\u{9b6}', '\u{9cb}', '\u{9b0}']
    } else if k == 13 {
        // কুষ্টিয়া
        seq!['\u{995}', '\u{9c1}', '\u{9b7}', '\u{9cd}', '\u{99f}', '\u{9bf}', '\u{9af}', '\u{9bc}', '\u{9be}']
    } else if k == 14 {
        // বগুড়া
        seq!['\u{9ac}', '\u{997}', '\u{9c1}', '\u{9a1}', '\u{9bc}', '\u{9be}']
    } else if k == 15 {
        // পাবনা
        seq!['\u{9aa}', '\u{9be}', '\u{9ac}', '\u{9a8}', '\u{9be}']
    } else if k == 16 {
        // দিনাজপুর
        seq!['\u{9a6}', '\u{9bf}', '\u{9a8}', '\u{9be}', '\u{99c}', '\u{9aa}', '\u{9c1}', '\u{9b0}']
    } else if k == 17 {
        // টাঙ্গাইল
        seq!['\u{99f}', '\u{9be}', '\u{999}', '\u{9cd}', '\u{997}', '\u{9be}', '\u{987}', '\u{9b2}']
    } else if k == 18 {
        // গাজীপুর
        seq!['\u{997}', '\u{9be}', '\u{99c}', '\u{9c0}', '\u{9aa}', '\u{9c1}', '\u{9b0}']
    } else if k == 19 {
        // নারায়ণগঞ্জ
        seq!['\u{9a8}', '\u{9be}', '\u{9b0}', '\u{9be}', '\u{9af}', '\u{9bc}', '\u{9a3}', '\u{997}', '\u{99e}', '\u{9cd}', '\u{99c}']
    } else if k == 20 {
        // রাঙ্গামাটি
        seq!['\u{9b0}', '\u{9be}', '\u{999}', '\u{9cd}', '\u{997}', '\u{9be}', '\u{9ae}', '\u{9be}', '\u{99f}', '\u{9bf}']
    } else if k == 21 {
        // বান্দরবান
        seq!['\u{9ac}', '\u{9be}', '\u{9a8}', '\u{9cd}', '\u{9a6}', '\u{9b0}', '\u{9ac}', '\u{9be}', '\u{9a8}']
    } else if k == 22 {
        // খাগড়াছড়ি
        seq!['\u{996}', '\u{9be}', '\u{997}', '\u{9a1}', '\u{9bc}', '\u{9be}', '\u{99b}', '\u{9a1}', '\u{9bc}', '\u{9bf}']
    } else if k == 23 {
        // কক্সবাজার
        seq!['\u{995}', '\u{995}', '\u{9cd}', '\u{9b8}', '\u{9ac}', '\u{9be}', '\u{99c}', '\u{9be}', '\u{9b0}']
    } else if k == 24 {
        // ফেনী
        seq!['\u{9ab}', '\u{9c7}', '\u{9a8}', '\u{9c0}']
    } else if k == 25 {
        // লক্ষ্মীপুর
        seq!['\u{9b2}', '\u{995}', '\u{9cd}', '\u{9b7}', '\u{9cd}', '\u{9ae}', '\u{9c0}', '\u{9aa}', '\u{9c1}', '\u{9b0}']
    } else if k == 26 {
        // চাঁদপুর
        seq!['\u{99a}', '\u{9be}', '\u{981}', '\u{9a6}', '\u{9aa}', '\u{9c1}', '\u{9b0}']
    } else if k == 27 {
        // ব্রাহ্মণবাড়ীয়া
        seq!['\u{9ac}', '\u{9cd}', '\u{9b0}', '\u{9be}', '\u{9b9}', '\u{9cd}', '\u{9ae}', '\u{9a3}', '\u{9ac}', '\u{9be}', '\u{9dc}', '\u{9c0}', '\u{9df}', '\u{9be}']
    } else if k == 28 {
        // ব্রাহ্মণবাড়িয়া
        seq!['\u{9ac}', '\u{9cd}', '\u{9b0}', '\u{9be}', '\u{9b9}', '\u{9cd}', '\u{9ae}', '\u{9a3}', '\u{9ac}', '\u{9be}', '\u{9a1}', '\u{9bc}', '\u{9bf}', '\u{9af}', '\u{9bc}', '\u{9be}']
    } else if k == 29 {
        // হবিগঞ্জ
        seq!['\u{9b9}', '\u{9ac}', '\u{9bf}', '\u{997}', '\u{99e}', '\u{9cd}', '\u{99c}']
    } else if k == 30 {
        // মৌলভীবাজার
        seq!['\u{9ae}', '\u{9cc}', '\u{9b2}', '\u{9ad}', '\u{9c0}', '\u{9ac}', '\u{9be}', '\u{99c}', '\u{9be}', '\u{9b0}']
    } else if k == 31 {
        // সুনামগঞ্জ
        seq!['\u{9b8}', '\u{9c1}', '\u{9a8}', '\u{9be}', '\u{9ae}', '\u{997}', '\u{99e}', '\u{9cd}', '\u{99c}']
    } else if k == 32 {
        // নাটোর
        seq!['\u{9a8}', '\u{9be}', '\u{99f}', '\u{9cb}', '\u{9b0}']
    } else if k == 33 {
        // নওগাঁ
        seq!['\u{9a8}', '\u{993}', '\u{997}', '\u{9be}', '\u{981}']
    } else if k == 34 {
        // চাঁপাইনবাবগঞ্জ
        seq!['\u{99a}', '\u{9be}', '\u{981}', '\u{9aa}', '\u{9be}', '\u{987}', '\u{9a8}', '\u{9ac}', '\u{9be}', '\u{9ac}', '\u{997}', '\u{99e}', '\u{9cd}', '\u{99c}']
    } else if k == 35 {
        // জয়পুরহাট
        seq!['\u{99c}', '\u{9af}', '\u{9bc}', '\u{9aa}', '\u{9c1}', '\u{9b0}', '\u{9b9}', '\u{9be}', '\u{99f}']
    } else if k == 36 {
        // সিরাজগঞ্জ
        seq!['\u{9b8}', '\u{9bf}', '\u{9b0}', '\u{9be}', '\u{99c}', '\u{997}', '\u{99e}', '\u{9cd}', '\u{99c}']
    } else if k == 37 {
        // গাইবান্ধা
        seq!['\u{997}', '\u{9be}', '\u{987}', '\u{9ac}', '\u{9be}', '\u{9a8}', '\u{9cd}', '\u{9a7}', '\u{9be}']
    } else if k == 38 {
        // কুড়িগ্রাম
        seq!['\u{995}', '\u{9c1}', '\u{9a1}', '\u{9bc}', '\u{9bf}', '\u{997}', '\u{9cd}', '\u{9b0}', '\u{9be}', '\u{9ae}']
    } else if k == 39 {
        // লালমনিরহাট
        seq!['\u{9b2}', '\u{9be}', '\u{9b2}', '\u{9ae}', '\u{9a8}', '\u{9bf}', '\u{9b0}', '\u{9b9}', '\u{9be}', '\u{99f}']
    } else if k == 40 {
        // নীলফামারী
        seq!['\u{9a8}', '\u{9c0}', '\u{9b2}', '\u{9ab}', '\u{9be}', '\u{9ae}', '\u{9be}', '\u{9b0}', '\u{9c0}']
    } else if k == 41 {
        // পঞ্চগড়
        seq!['\u{9aa}', '\u{99e}', '\u{9cd}', '\u{99a}', '\u{997}', '\u{9a1}', '\u{9bc}']
    } else if k == 42 {
        // ঠাকুরগাঁও
        seq!['\u{9a0}', '\u{9be}', '\u{995}', '\u{9c1}', '\u{9b0}', '\u{997}', '\u{9be}', '\u{981}', '\u{993}']
    } else if k == 43 {
        // বাগেরহাট
        seq!['\u{9ac}', '\u{9be}', '\u{997}', '\u{9c7}', '\u{9b0}', '\u{9b9}', '\u{9be}', '\u{99f}']
    } else if k == 44 {
        // সাতক্ষীরা
        seq!['\u{9b8}', '\u{9be}', '\u{9a4}', '\u{995}', '\u{9cd}', '\u{9b7}', '\u{9c0}', '\u{9b0}', '\u{9be}']
    } else if k == 45 {
        // ঝিনাইদহ
        seq!['\u{99d}', '\u{9bf}', '\u{9a8}', '\u{9be}', '\u{987}', '\u{9a6}', '\u{9b9}']
    } else if k == 46 {
        // মাগুরা
        seq!['\u{9ae}', '\u{9be}', '\u{997}', '\u{9c1}', '\u{9b0}', '\u{9be}']
    } else if k == 47 {
        // নড়াইল
        seq!['\u{9a8}', '\u{9a1}', '\u{9bc}', '\u{9be}', '\u{987}', '\u{9b2}']
    } else if k == 48 {
        // চুয়াডাঙ্গা
        seq!['\u{99a}', '\u{9c1}', '\u{9af}', '\u{9bc}', '\u{9be}', '\u{9a1}', '\u{9be}', '\u{999}', '\u{9cd}', '\u{997}', '\u{9be}']
    } else if k == 49 {
        // মেহেরপুর
        seq!['\u{9ae}', '\u{9c7}', '\u{9b9}', '\u{9c7}', '\u{9b0}', '\u{9aa}', '\u{9c1}', '\u{9b0}']
    } else if k == 50 {
        // পটুয়াখালী
        seq!['\u{9aa}', '\u{99f}', '\u{9c1}', '\u{9af}', '\u{9bc}', '\u{9be}', '\u{996}', '\u{9be}', '\u{9b2}', '\u{9c0}']
    } else if k == 51 {
        // ভোলা
        seq!['\u{9ad}', '\u{9cb}', '\u{9b2}', '\u{9be}']
    } else if k == 52 {
        // পিরোজপুর
        seq!['\u{9aa}', '\u{9bf}', '\u{9b0}', '\u{9cb}', '\u{99c}', '\u{9aa}', '\u{9c1}', '\u{9b0}']
    } else if k == 53 {
        // ঝালকাঠি
        seq!['\u{99d}', '\u{9be}', '\u{9b2}', '\u{995}', '\u{9be}', '\u{9a0}', '\u{9bf}']
    } else if k == 54 {
        // বরগুনা
        seq!['\u{9ac}', '\u{9b0}', '\u{997}', '\u{9c1}', '\u{9a8}', '\u{9be}']
    } else if k == 55 {
        // শেরপুর
        seq!['\u{9b6}', '\u{9c7}', '\u{9b0}', '\u{9aa}', '\u{9c1}', '\u{9b0}']
    } else if k == 56 {
        // নেত্রকোনা
        seq!['\u{9a8}', '\u{9c7}', '\u{9a4}', '\u{9cd}', '\u{9b0}', '\u{995}', '\u{9cb}', '\u{9a8}', '\u{9be}']
    } else if k == 57 {
        // কিশোরগঞ্জ
        seq!['\u{995}', '\u{9bf}', '\u{9b6}', '\u{9cb}', '\u{9b0}', '\u{997}', '\u{99e}', '\u{9cd}', '\u{99c}']
    } else if k == 58 {
        // মানিকগঞ্জ
        seq!['\u{9ae}', '\u{9be}', '\u{9a8}', '\u{9bf}', '\u{995}', '\u{997}', '\u{99e}', '\u{9cd}', '\u{99c}']
    } else if k == 59 {
        // মুন্সীগঞ্জ
        seq!['\u{9ae}', '\u{9c1}', '\u{9a8}', '\u{9cd}', '\u{9b8}', '\u{9c0}', '\u{997}', '\u{99e}', '\u{9cd}', '\u{99c}']
    } else if k == 60 {
        // নরসিংদী
        seq!['\u{9a8}', '\u{9b0}', '\u{9b8}', '\u{9bf}', '\u{982}', '\u{9a6}', '\u{9c0}']
    } else if k == 61 {
        // মাদারীপুর
        seq!['\u{9ae}', '\u{9be}', '\u{9a6}', '\u{9be}', '\u{9b0}', '\u{9c0}', '\u{9aa}', '\u{9c1}', '\u{9b0}']
    } else if k == 62 {
        // শরীয়তপুর
        seq!['\u{9b6}', '\u{9b0}', '\u{9c0}', '\u{9af}', '\u{9bc}', '\u{9a4}', '\u{9aa}', '\u{9c1}', '\u{9b0}']
    } else if k == 63 {
        // রাজবাড়ী
        seq!['\u{9b0}', '\u{9be}', '\u{99c}', '\u{9ac}', '\u{9be}', '\u{9a1}', '\u{9bc}', '\u{9c0}']
    } else if k == 64 {
        // রাজবাড়ি
        seq!['\u{9b0}', '\u{9be}', '\u{99c}', '\u{9ac}', '\u{9be}', '\u{9a1}', '\u{9bc}', '\u{9bf}']
    } else if k == 65 {
        // গোপালগঞ্জ
        seq!['\u{997}', '\u{9cb}', '\u{9aa}', '\u{9be}', '\u{9b2}', '\u{997}', '\u{99e}', '\u{9cd}', '\u{99c}']
    } else {
        Seq::empty()
    }
}

/// The characters of district `k` of the table.
fn district_chars(k: usize) -> (v: Vec<char>)
    requires
        k < 66,
    ensures
        v@ == district(k as int),
{
    match k {
        0 => vec!['\u{9a2}', '\u{9be}', '\u{995}', '\u{9be}'],
        1 => vec!['\u{99a}', '\u{99f}', '\u{9cd}', '\u{99f}'],
        2 => vec!['\u{99a}', '\u{99f}', '\u{9cd}', '\u{99f}', '\u{997}', '\u{9cd}', '\u{9b0}', '\u{9be}', '\u{9ae}'],
        3 => vec!['\u{9b8}', '\u{9bf}', '\u{9b2}', '\u{9c7}', '\u{99f}'],
        4 => vec!['\u{996}', '\u{9c1}', '\u{9b2}', '\u{9a8}', '\u{9be}'],
        5 => vec!['\u{9b0}', '\u{9be}', '\u{99c}', '\u{9b6}', '\u{9be}', '\u{9b9}', '\u{9c0}'],
        6 => vec!['\u{9ac}', '\u{9b0}', '\u{9bf}', '\u{9b6}', '\u{9be}', '\u{9b2}'],
        7 => vec!['\u{9b0}', '\u{982}', '\u{9aa}', '\u{9c1}', '\u{9b0}'],
        8 => vec!['\u{9ae}', '\u{9af}', '\u{9bc}', '\u{9ae}', '\u{9a8}', '\u{9b8}', '\u{9bf}', '\u{982}', '\u{9b9}'],
        9 => vec!['\u{995}', '\u{9c1}', '\u{9ae}', '\u{9bf}', '\u{9b2}', '\u{9cd}', '\u{9b2}', '\u{9be}'],
        10 => vec!['\u{9a8}', '\u{9cb}', '\u{9af}', '\u{9bc}', '\u{9be}', '\u{996}', '\u{9be}', '\u{9b2}', '\u{9c0}'],
        11 => vec!['\u{9ab}', '\u{9b0}', '\u{9bf}', '\u{9a6}', '\u{9aa}', '\u{9c1}', '\u{9b0}'],
        12 => vec!['\u{9af}', '\u{9b6}', '\u{9cb}', '\u{9b0}'],
        13 => vec!['\u{995}', '\u{9c1}', '\u{9b7}', '\u{9cd}', '\u{99f}', '\u{9bf}', '\u{9af}', '\u{9bc}', '\u{9be}'],
        14 => vec!['\u{9ac}', '\u{997}', '\u{9c1}', '\u{9a1}', '\u{9bc}', '\u{9be}'],
        15 => vec!['\u{9aa}', '\u{9be}', '\u{9ac}', '\u{9a8}', '\u{9be}'],
        16 => vec!['\u{9a6}', '\u{9bf}', '\u{9a8}', '\u{9be}', '\u{99c}', '\u{9aa}', '\u{9c1}', '\u{9b0}'],
        17 => vec!['\u{99f}', '\u{9be}', '\u{999}', '\u{9cd}', '\u{997}', '\u{9be}', '\u{987}', '\u{9b2}'],
        18 => vec!['\u{997}', '\u{9be}', '\u{99c}', '\u{9c0}', '\u{9aa}', '\u{9c1}', '\u{9b0}'],
        19 => vec!['\u{9a8}', '\u{9be}', '\u{9b0}', '\u{9be}', '\u{9af}', '\u{9bc}', '\u{9a3}', '\u{997}', '\u{99e}', '\u{9cd}', '\u{99c}'],
        20 => vec!['\u{9b0}', '\u{9be}', '\u{999}', '\u{9cd}', '\u{997}', '\u{9be}', '\u{9ae}', '\u{9be}', '\u{99f}', '\u{9bf}'],
        21 => vec!['\u{9ac}', '\u{9be}', '\u{9a8}', '\u{9cd}', '\u{9a6}', '\u{9b0}', '\u{9ac}', '\u{9be}', '\u{9a8}'],
        22 => vec!['\u{996}', '\u{9be}', '\u{997}', '\u{9a1}', '\u{9bc}', '\u{9be}', '\u{99b}', '\u{9a1}', '\u{9bc}', '\u{9bf}'],
        23 => vec!['\u{995}', '\u{995}', '\u{9cd}', '\u{9b8}', '\u{9ac}', '\u{9be}', '\u{99c}', '\u{9be}', '\u{9b0}'],
        24 => vec!['\u{9ab}', '\u{9c7}', '\u{9a8}', '\u{9c0}'],
        25 => vec!['\u{9b2}', '\u{995}', '\u{9cd}', '\u{9b7}', '\u{9cd}', '\u{9ae}', '\u{9c0}', '\u{9aa}', '\u{9c1}', '\u{9b0}'],
        26 => vec!['\u{99a}', '\u{9be}', '\u{981}', '\u{9a6}', '\u{9aa}', '\u{9c1}', '\u{9b0}'],
        27 => vec!['\u{9ac}', '\u{9cd}', '\u{9b0}', '\u{9be}', '\u{9b9}', '\u{9cd}', '\u{9ae}', '\u{9a3}', '\u{9ac}', '\u{9be}', '\u{9dc}', '\u{9c0}', '\u{9df}', '\u{9be}'],
        28 => vec!['\u{9ac}', '\u{9cd}', '\u{9b0}', '\u{9be}', '\u{9b9}', '\u{9cd}', '\u{9ae}', '\u{9a3}', '\u{9ac}', '\u{9be}', '\u{9a1}', '\u{9bc}', '\u{9bf}', '\u{9af}', '\u{9bc}', '\u{9be}'],
        29 => vec!['\u{9b9}', '\u{9ac}', '\u{9bf}', '\u{997}', '\u{99e}', '\u{9cd}', '\u{99c}'],
        30 => vec!['\u{9ae}', '\u{9cc}', '\u{9b2}', '\u{9ad}', '\u{9c0}', '\u{9ac}', '\u{9be}', '\u{99c}', '\u{9be}', '\u{9b0}'],
        31 => vec!['\u{9b8}', '\u{9c1}', '\u{9a8}', '\u{9be}', '\u{9ae}', '\u{997}', '\u{99e}', '\u{9cd}', '\u{99c}'],
        32 => vec!['\u{9a8}', '\u{9be}', '\u{99f}', '\u{9cb}', '\u{9b0}'],
        33 => vec!['\u{9a8}', '\u{993}', '\u{997}', '\u{9be}', '\u{981}'],
        34 => vec!['\u{99a}', '\u{9be}', '\u{981}', '\u{9aa}', '\u{9be}', '\u{987}', '\u{9a8}', '\u{9ac}', '\u{9be}', '\u{9ac}', '\u{997}', '\u{99e}', '\u{9cd}', '\u{99c}'],
        35 => vec!['\u{99c}', '\u{9af}', '\u{9bc}', '\u{9aa}', '\u{9c1}', '\u{9b0}', '\u{9b9}', '\u{9be}', '\u{99f}'],
        36 => vec!['\u{9b8}', '\u{9bf}', '\u{9b0}', '\u{9be}', '\u{99c}', '\u{997}', '\u{99e}', '\u{9cd}', '\u{99c}'],
        37 => vec!['\u{997}', '\u{9be}', '\u{987}', '\u{9ac}', '\u{9be}', '\u{9a8}', '\u{9cd}', '\u{9a7}', '\u{9be}'],
        38 => vec!['\u{995}', '\u{9c1}', '\u{9a1}', '\u{9bc}', '\u{9bf}', '\u{997}', '\u{9cd}', '\u{9b0}', '\u{9be}', '\u{9ae}'],
        39 => vec!['\u{9b2}', '\u{9be}', '\u{9b2}', '\u{9ae}', '\u{9a8}', '\u{9bf}', '\u{9b0}', '\u{9b9}', '\u{9be}', '\u{99f}'],
        40 => vec!['\u{9a8}', '\u{9c0}', '\u{9b2}', '\u{9ab}', '\u{9be}', '\u{9ae}', '\u{9be}', '\u{9b0}', '\u{9c0}'],
        41 => vec!['\u{9aa}', '\u{99e}', '\u{9cd}', '\u{99a}', '\u{997}', '\u{9a1}', '\u{9bc}'],
        42 => vec!['\u{9a0}', '\u{9be}', '\u{995}', '\u{9c1}', '\u{9b0}', '\u{997}', '\u{9be}', '\u{981}', '\u{993}'],
        43 => vec!['\u{9ac}', '\u{9be}', '\u{997}', '\u{9c7}', '\u{9b0}', '\u{9b9}', '\u{9be}', '\u{99f}'],
        44 => vec!['\u{9b8}', '\u{9be}', '\u{9a4}', '\u{995}', '\u{9cd}', '\u{9b7}', '\u{9c0}', '\u{9b0}', '\u{9be}'],
        45 => vec!['\u{99d}', '\u{9bf}', '\u{9a8}', '\u{9be}', '\u{987}', '\u{9a6}', '\u{9b9}'],
        46 => vec!['\u{9ae}', '\u{9be}', '\u{997}', '\u{9c1}', '\u{9b0}', '\u{9be}'],
        47 => vec!['\u{9a8}', '\u{9a1}', '\u{9bc}', '\u{9be}', '\u{987}', '\u{9b2}'],
        48 => vec!['\u{99a}', '\u{9c1}', '\u{9af}', '\u{9bc}', '\u{9be}', '\u{9a1}', '\u{9be}', '\u{999}', '\u{9cd}', '\u{997}', '\u{9be}'],
        49 => vec!['\u{9ae}', '\u{9c7}', '\u{9b9}', '\u{9c7}', '\u{9b0}', '\u{9aa}', '\u{9c1}', '\u{9b0}'],
        50 => vec!['\u{9aa}', '\u{99f}', '\u{9c1}', '\u{9af}', '\u{9bc}', '\u{9be}', '\u{996}', '\u{9be}', '\u{9b2}', '\u{9c0}'],
        51 => vec!['\u{9ad}', '\u{9cb}', '\u{9b2}', '\u{9be}'],
        52 => vec!['\u{9aa}', '\u{9bf}', '\u{9b0}', '\u{9cb}', '\u{99c}', '\u{9aa}', '\u{9c1}', '\u{9b0}'],
        53 => vec!['\u{99d}', '\u{9be}', '\u{9b2}', '\u{995}', '\u{9be}', '\u{9a0}', '\u{9bf}'],
        54 => vec!['\u{9ac}', '\u{9b0}', '\u{997}', '\u{9c1}', '\u{9a8}', '\u{9be}'],
        55 => vec!['\u{9b6}', '\u{9c7}', '\u{9b0}', '\u{9aa}', '\u{9c1}', '\u{9b0}'],
        56 => vec!['\u{9a8}', '\u{9c7}', '\u{9a4}', '\u{9cd}', '\u{9b0}', '\u{995}', '\u{9cb}', '\u{9a8}', '\u{9be}'],
        57 => vec!['\u{995}', '\u{9bf}', '\u{9b6}', '\u{9cb}', '\u{9b0}', '\u{997}', '\u{99e}', '\u{9cd}', '\u{99c}'],
        58 => vec!['\u{9ae}', '\u{9be}', '\u{9a8}', '\u{9bf}', '\u{995}', '\u{997}', '\u{99e}', '\u{9cd}', '\u{99c}'],
        59 => vec!['\u{9ae}', '\u{9c1}', '\u{9a8}', '\u{9cd}', '\u{9b8}', '\u{9c0}', '\u{997}', '\u{99e}', '\u{9cd}', '\u{99c}'],
        60 => vec!['\u{9a8}', '\u{9b0}', '\u{9b8}', '\u{9bf}', '\u{982}', '\u{9a6}', '\u{9c0}'],
        61 => vec!['\u{9ae}', '\u{9be}', '\u{9a6}', '\u{9be}', '\u{9b0}', '\u{9c0}', '\u{9aa}', '\u{9c1}', '\u{9b0}'],
        62 => vec!['\u{9b6}', '\u{9b0}', '\u{9c0}', '\u{9af}', '\u{9bc}', '\u{9a4}', '\u{9aa}', '\u{9c1}', '\u{9b0}'],
        63 => vec!['\u{9b0}', '\u{9be}', '\u{99c}', '\u{9ac}', '\u{9be}', '\u{9a1}', '\u{9bc}', '\u{9c0}'],
        64 => vec!['\u{9b0}', '\u{9be}', '\u{99c}', '\u{9ac}', '\u{9be}', '\u{9a1}', '\u{9bc}', '\u{9bf}'],
        65 => vec!['\u{997}', '\u{9cb}', '\u{9aa}', '\u{9be}', '\u{9b2}', '\u{997}', '\u{99e}', '\u{9cd}', '\u{99c}'],
        _ => Vec::new(),
    }
}

/// The name of district `k` of the table.
fn district_text(k: usize) -> (r: &'static str)
    requires
        k < 66,
    ensures
        r@ == district(k as int),
{
    match k {
        0 => {
            proof {
                reveal_strlit("ঢাকা");
            }
            "ঢাকা"
        },
        1 => {
            proof {
                reveal_strlit("চট্ট");
            }
            "চট্ট"
        },
        2 => {
            proof {
                reveal_strlit("চট্টগ্রাম");
            }
            "চট্টগ্রাম"
        },
        3 => {
            proof {
                reveal_strlit("সিলেট");
            }
            "সিলেট"
        },
        4 => {
            proof {
                reveal_strlit("খুলনা");
            }
            "খুলনা"
        },
        5 => {
            proof {
                reveal_strlit("রাজশাহী");
            }
            "রাজশাহী"
        },
        6 => {
            proof {
                reveal_strlit("বরিশাল");
            }
            "বরিশাল"
        },
        7 => {
            proof {
                reveal_strlit("রংপুর");
            }
            "রংপুর"
        },
        8 => {
            proof {
                reveal_strlit("ময়মনসিংহ");
            }
            "ময়মনসিংহ"
        },
        9 => {
            proof {
                reveal_strlit("কুমিল্লা");
            }
            "কুমিল্লা"
        },
        10 => {
            proof {
                reveal_strlit("নোয়াখালী");
            }
            "নোয়াখালী"
        },
        11 => {
            proof {
                reveal_strlit("ফরিদপুর");
            }
            "ফরিদপুর"
        },
        12 => {
            proof {
                reveal_strlit("যশোর");
            }
            "যশোর"
        },
        13 => {
            proof {
                reveal_strlit("কুষ্টিয়া");
            }
            "কুষ্টিয়া"
        },
        14 => {
            proof {
                reveal_strlit("বগুড়া");
            }
            "বগুড়া"
        },
        15 => {
            proof {
                reveal_strlit("পাবনা");
            }
            "পাবনা"
        },
        16 => {
            proof {
                reveal_strlit("দিনাজপুর");
            }
            "দিনাজপুর"
        },
        17 => {
            proof {
                reveal_strlit("টাঙ্গাইল");
            }
            "টাঙ্গাইল"
        },
        18 => {
            proof {
                reveal_strlit("গাজীপুর");
            }
            "গাজীপুর"
        },
        19 => {
            proof {
                reveal_strlit("নারায়ণগঞ্জ");
            }
            "নারায়ণগঞ্জ"
        },
        20 => {
            proof {
                reveal_strlit("রাঙ্গামাটি");
            }
            "রাঙ্গামাটি"
        },
        21 => {
            proof {
                reveal_strlit("বান্দরবান");
            }
            "বান্দরবান"
        },
        22 => {
            proof {
                reveal_strlit("খাগড়াছড়ি");
            }
            "খাগড়াছড়ি"
        },
        23 => {
            proof {
                reveal_strlit("কক্সবাজার");
            }
            "কক্সবাজার"
        },
        24 => {
            proof {
                reveal_strlit("ফেনী");
            }
            "ফেনী"
        },
        25 => {
            proof {
                reveal_strlit("লক্ষ্মীপুর");
            }
            "লক্ষ্মীপুর"
        },
        26 => {
            proof {
                reveal_strlit("চাঁদপুর");
            }
            "চাঁদপুর"
        },
        27 => {
            proof {
                reveal_strlit("ব্রাহ্মণবাড়ীয়া");
            }
            "ব্রাহ্মণবাড়ীয়া"
        },
        28 => {
            proof {
                reveal_strlit("ব্রাহ্মণবাড়িয়া");
            }
            "ব্রাহ্মণবাড়িয়া"
        },
        29 => {
            proof {
                reveal_strlit("হবিগঞ্জ");
            }
            "হবিগঞ্জ"
        },
        30 => {
            proof {
                reveal_strlit("মৌলভীবাজার");
            }
            "মৌলভীবাজার"
        },
        31 => {
            proof {
                reveal_strlit("সুনামগঞ্জ");
            }
            "সুনামগঞ্জ"
        },
        32 => {
            proof {
                reveal_strlit("নাটোর");
            }
            "নাটোর"
        },
        33 => {
            proof {
                reveal_strlit("নওগাঁ");
            }
            "নওগাঁ"
        },
        34 => {
            proof {
                reveal_strlit("চাঁপাইনবাবগঞ্জ");
            }
            "চাঁপাইনবাবগঞ্জ"
        },
        35 => {
            proof {
                reveal_strlit("জয়পুরহাট");
            }
            "জয়পুরহাট"
        },
        36 => {
            proof {
                reveal_strlit("সিরাজগঞ্জ");
            }
            "সিরাজগঞ্জ"
        },
        37 => {
            proof {
                reveal_strlit("গাইবান্ধা");
            }
            "গাইবান্ধা"
        },
        38 => {
            proof {
                reveal_strlit("কুড়িগ্রাম");
            }
            "কুড়িগ্রাম"
        },
        39 => {
            proof {
                reveal_strlit("লালমনিরহাট");
            }
            "লালমনিরহাট"
        },
        40 => {
            proof {
                reveal_strlit("নীলফামারী");
            }
            "নীলফামারী"
        },
        41 => {
            proof {
                reveal_strlit("পঞ্চগড়");
            }
            "পঞ্চগড়"
        },
        42 => {
            proof {
                reveal_strlit("ঠাকুরগাঁও");
            }
            "ঠাকুরগাঁও"
        },
        43 => {
            proof {
                reveal_strlit("বাগেরহাট");
            }
            "বাগেরহাট"
        },
        44 => {
            proof {
                reveal_strlit("সাতক্ষীরা");
            }
            "সাতক্ষীরা"
        },
        45 => {
            proof {
                reveal_strlit("ঝিনাইদহ");
            }
            "ঝিনাইদহ"
        },
        46 => {
            proof {
                reveal_strlit("মাগুরা");
            }
            "মাগুরা"
        },
        47 => {
            proof {
                reveal_strlit("নড়াইল");
            }
            "নড়াইল"
        },
        48 => {
            proof {
                reveal_strlit("চুয়াডাঙ্গা");
            }
            "চুয়াডাঙ্গা"
        },
        49 => {
            proof {
                reveal_strlit("মেহেরপুর");
            }
            "মেহেরপুর"
        },
        50 => {
            proof {
                reveal_strlit("পটুয়াখালী");
            }
            "পটুয়াখালী"
        },
        51 => {
            proof {
                reveal_strlit("ভোলা");
            }
            "ভোলা"
        },
        52 => {
            proof {
                reveal_strlit("পিরোজপুর");
            }
            "পিরোজপুর"
        },
        53 => {
            proof {
                reveal_strlit("ঝালকাঠি");
            }
            "ঝালকাঠি"
        },
        54 => {
            proof {
                reveal_strlit("বরগুনা");
            }
            "বরগুনা"
        },
        55 => {
            proof {
                reveal_strlit("শেরপুর");
            }
            "শেরপুর"
        },
        56 => {
            proof {
                reveal_strlit("নেত্রকোনা");
            }
            "নেত্রকোনা"
        },
        57 => {
            proof {
                reveal_strlit("কিশোরগঞ্জ");
            }
            "কিশোরগঞ্জ"
        },
        58 => {
            proof {
                reveal_strlit("মানিকগঞ্জ");
            }
            "মানিকগঞ্জ"
        },
        59 => {
            proof {
                reveal_strlit("মুন্সীগঞ্জ");
            }
            "মুন্সীগঞ্জ"
        },
        60 => {
            proof {
                reveal_strlit("নরসিংদী");
            }
            "নরসিংদী"
        },
        61 => {
            proof {
                reveal_strlit("মাদারীপুর");
            }
            "মাদারীপুর"
        },
        62 => {
            proof {
                reveal_strlit("শরীয়তপুর");
            }
            "শরীয়তপুর"
        },
        63 => {
            proof {
                reveal_strlit("রাজবাড়ী");
            }
            "রাজবাড়ী"
        },
        64 => {
            proof {
                reveal_strlit("রাজবাড়ি");
            }
            "রাজবাড়ি"
        },
        65 => {
            proof {
                reveal_strlit("গোপালগঞ্জ");
            }
            "গোপালগঞ্জ"
        },
        _ => "",
    }
}

/// The word "মেট্রো" that marks a metropolitan plate.
pub open spec fn metro_word() -> Seq<char> {
    seq!['\u{9ae}', '\u{9c7}', '\u{99f}', '\u{9cd}', '\u{9b0}', '\u{9cb}']
}

fn metro_chars() -> (v: Vec<char>)
    ensures
        v@ == metro_word(),
{
    vec!['\u{9ae}', '\u{9c7}', '\u{99f}', '\u{9cd}', '\u{9b0}', '\u{9cb}']
}

/// `s` is one of the names of the district table.
pub open spec fn is_district(s: Seq<char>) -> bool {
    exists|k: int| 0 <= k < DISTRICT_COUNT && #[trigger] district(k) == s
}

/// The spelling a district is reported under: "চট্টগ্রাম" and "চট্ট" as
/// "চট্ট", "রাজবাড়ি" as "রাজবাড়ী", "ব্রাহ্মণবাড়ীয়া" as "ব্রাহ্মণবাড়িয়া".
pub open spec fn canonical_district(d: Seq<char>) -> Seq<char> {
    if d == district(2) || d == district(1) {
        district(1)
    } else if d == district(64) {
        district(63)
    } else if d == district(27) {
        district(28)
    } else {
        d
    }
}

/// The first table entry, from `k` on, within edit distance 1 of `input`.
pub open spec fn first_near_district(input: Seq<char>, k: int) -> Option<int>
    decreases DISTRICT_COUNT - k,
{
    if k >= DISTRICT_COUNT || k < 0 {
        None
    } else if lev(input, district(k)) <= 1 {
        Some(k)
    } else {
        first_near_district(input, k + 1)
    }
}

/// The district that `input` names: itself when it is in the table, else the
/// first table entry one edit away; reported in its canonical spelling.
pub open spec fn corrected_district(input: Seq<char>) -> Option<Seq<char>> {
    if is_district(input) {
        Some(canonical_district(input))
    } else {
        match first_near_district(input, 0) {
            Some(k) => Some(canonical_district(district(k))),
            None => None,
        }
    }
}

fn canonical_chars(d: Vec<char>) -> (r: Vec<char>)
    ensures
        r@ == canonical_district(d@),
{
    if same_chars(d.as_slice(), district_chars(2).as_slice()) || same_chars(
        d.as_slice(),
        district_chars(1).as_slice(),
    ) {
        district_chars(1)
    } else if same_chars(d.as_slice(), district_chars(64).as_slice()) {
        district_chars(63)
    } else if same_chars(d.as_slice(), district_chars(27).as_slice()) {
        district_chars(28)
    } else {
        d
    }
}

fn correct_district_chars(input: &[char]) -> (r: Option<Vec<char>>)
    ensures
        match r {
            Some(v) => corrected_district(input@) == Some(v@),
            None => corrected_district(input@) is None,
        },
{
    let mut k: usize = 0;
    while k < DISTRICT_COUNT
        invariant
            k <= DISTRICT_COUNT,
            forall|j: int| 0 <= j < k ==> district(j) != input@,
        decreases DISTRICT_COUNT - k,
    {
        let d = district_chars(k);
        if same_chars(input, d.as_slice()) {
            assert(is_district(input@));
            return Some(canonical_chars(d));
        }
        k = k + 1;
    }
    assert(!is_district(input@));
    let mut best: Option<usize> = None;
    let mut min_dist: usize = usize::MAX;
    let mut k: usize = 0;
    while k < DISTRICT_COUNT
        invariant
            k <= DISTRICT_COUNT,
            forall|j: int| 0 <= j < DISTRICT_COUNT ==> district(j) != input@,
            match best {
                Some(b) => b < k && first_near_district(input@, 0) == Some(b as int) && min_dist == 1,
                None => min_dist == usize::MAX && first_near_district(input@, 0)
                    == first_near_district(input@, k as int),
            },
        decreases DISTRICT_COUNT - k,
    {
        let d = district_chars(k);
        let dist = edit_distance(input, d.as_slice());
        proof {
            lemma_lev_zero_iff_equal(input@, d@);
        }
        if dist < min_dist && dist <= 1 {
            min_dist = dist;
            best = Some(k);
        }
        k = k + 1;
    }
    match best {
        Some(b) => Some(canonical_chars(district_chars(b))),
        None => None,
    }
}

/// Corrects misspelled district names using edit distance (tolerance of 1 character).
pub fn correct_district(input: &str) -> (r: Option<&'static str>)
    ensures
        match r {
            Some(s) => corrected_district(input@) == Some(s@),
            None => corrected_district(input@) is None,
        },
{
    let chars = chars_of(input);
    match correct_district_chars(chars.as_slice()) {
        Some(v) => {
            proof {
                law_corrected_district_is_stable(input@);
            }
            let mut k: usize = 0;
            while k < DISTRICT_COUNT
                invariant
                    k <= DISTRICT_COUNT,
                    is_district(v@),
                    corrected_district(input@) == Some(v@),
                    forall|j: int| 0 <= j < k ==> district(j) != v@,
                decreases DISTRICT_COUNT - k,
            {
                let d = district_chars(k);
                if same_chars(v.as_slice(), d.as_slice()) {
                    return Some(district_text(k));
                }
                k = k + 1;
            }
            None
        },
        None => None,
    }
}

/// Calculates the Levenshtein distance between two strings.
pub fn levenshtein_distance(s1: &str, s2: &str) -> (r: usize)
    ensures
        r == lev(s1@, s2@),
{
    let a = chars_of(s1);
    let b = chars_of(s2);
    edit_distance(a.as_slice(), b.as_slice())
}


// ---------------------------------------------------------------------------
// Top line: district, optional metro word, class letter
// ---------------------------------------------------------------------------

/// What a candidate top line yields: the district, whether the metro word was
/// seen, and the class letter.
pub type TopParts = (Option<Seq<char>>, bool, Option<char>);

type TopPartsChars = (Option<Vec<char>>, bool, Option<char>);

pub open spec fn opt_view(o: Option<Vec<char>>) -> Option<Seq<char>> {
    match o {
        Some(v) => Some(v@),
        None => None,
    }
}

pub open spec fn parts_view(p: TopPartsChars) -> TopParts {
    (opt_view(p.0), p.1, p.2)
}

pub open spec fn opt_parts_view(p: Option<TopPartsChars>) -> Option<TopParts> {
    match p {
        Some(q) => Some(parts_view(q)),
        None => None,
    }
}

/// A character kept when a line is read as a top line: a letter (any
/// alphabetic character or one of the Bengali block) that is no digit,
/// whitespace, or a zero-width (non-)joiner.
pub open spec fn keeps_in_top_line(c: char) -> bool {
    ||| ((alphabetic(c) || ('\u{980}' <= c && c <= '\u{9ff}')) && !is_bengali_digit(c)
        && !is_ascii_digit(c))
    ||| is_ws(c)
    ||| c == '\u{200c}'
    ||| c == '\u{200d}'
}

/// The characters of a line read as a top line.
pub open spec fn top_line_chars(line: Seq<char>) -> Seq<char> {
    line.filter(|c: char| keeps_in_top_line(c))
}

/// The number of characters of the metro word that precede the cut the
/// recognizer makes (byte offset 15 of the 18-byte word).
pub const METRO_CUT: usize = 5;

/// The parts found after a district: the metro word and then a class letter,
/// or directly a class letter.
pub open spec fn after_district(dist: Option<Seq<char>>, rest: Seq<char>) -> TopParts {
    if metro_word().is_prefix_of(rest) {
        (dist, true, find_class(rest.skip(METRO_CUT as int)))
    } else {
        (dist, false, find_class(rest))
    }
}

/// A top line of three tokens: district, metro word, class letter.
pub open spec fn three_token_parts(t0: Seq<char>, t1: Seq<char>, t2: Seq<char>) -> TopParts {
    (corrected_district(t0), t1 == metro_word(), find_class(t2))
}

/// A top line of two tokens, where the metro word may be glued to either side.
pub open spec fn two_token_parts(t0: Seq<char>, t1: Seq<char>) -> TopParts {
    if t1 == metro_word() {
        (None, false, None)
    } else if metro_word().is_prefix_of(t1) {
        (corrected_district(t0), true, find_class(t1.skip(METRO_CUT as int)))
    } else if metro_word().is_suffix_of(t0) {
        (corrected_district(t0.take(t0.len() - METRO_CUT)), true, find_class(t1))
    } else {
        (corrected_district(t0), false, find_class(t1))
    }
}

/// "চট্টগ্রাম" and "চট্ট" as "চট্ট"; other names unchanged.
pub open spec fn chattogram_canonical(d: Seq<char>) -> Seq<char> {
    if d == district(2) || d == district(1) {
        district(1)
    } else {
        d
    }
}

/// The first table entry, from `k` on, that begins `tok`.
pub open spec fn first_prefix_district(tok: Seq<char>, k: int) -> Option<int>
    decreases DISTRICT_COUNT - k,
{
    if k >= DISTRICT_COUNT || k < 0 {
        None
    } else if district(k).is_prefix_of(tok) {
        Some(k)
    } else {
        first_prefix_district(tok, k + 1)
    }
}

/// The fuzzy reading of a single merged token, trying table entries from `k`
/// on: the token's prefix of the entry's byte length, when within edit distance
/// 1 of the entry. `None` when that prefix does not end on a character.
pub open spec fn fuzzy_token_parts(tok: Seq<char>, k: int) -> Option<TopParts>
    decreases DISTRICT_COUNT - k,
{
    if k >= DISTRICT_COUNT || k < 0 {
        Some((None, false, None))
    } else if utf8_len(district(k)) <= utf8_len(tok) {
        match byte_prefix_chars(tok, utf8_len(district(k)) as int) {
            None => None,
            Some(i) => if lev(tok.take(i), district(k)) <= 1 {
                Some(after_district(corrected_district(tok.take(i)), tok.skip(i)))
            } else {
                fuzzy_token_parts(tok, k + 1)
            },
        }
    } else {
        fuzzy_token_parts(tok, k + 1)
    }
}

/// A top line of a single merged token.
pub open spec fn one_token_parts(tok: Seq<char>) -> Option<TopParts> {
    match first_prefix_district(tok, 0) {
        Some(k) => Some(
            after_district(Some(chattogram_canonical(district(k))), tok.skip(district(k).len() as int)),
        ),
        None => if utf8_len(tok) >= 6 {
            fuzzy_token_parts(tok, 0)
        } else {
            Some((None, false, None))
        },
    }
}

/// What the tokens of a candidate top line yield; `None` when reading them
/// would cut a character in two.
pub open spec fn line_parts(toks: Seq<Seq<char>>) -> Option<TopParts> {
    if toks.len() == 3 {
        Some(three_token_parts(toks[0], toks[1], toks[2]))
    } else if toks.len() == 2 {
        Some(two_token_parts(toks[0], toks[1]))
    } else if toks.len() == 1 {
        one_token_parts(toks[0])
    } else {
        Some((None, false, None))
    }
}

/// The first line, from `i` on and other than line `skip`, that reads as a
/// complete top line: `Some(None)` when there is none, `None` when a line
/// before it cannot be read.
pub open spec fn top_scan(lines: Seq<Seq<char>>, skip: int, i: int) -> Option<
    Option<(Seq<char>, bool, char)>,
>
    decreases lines.len() - i,
{
    if i >= lines.len() || i < 0 {
        Some(None)
    } else if i == skip {
        top_scan(lines, skip, i + 1)
    } else {
        match line_parts(words(top_line_chars(lines[i]))) {
            None => None,
            Some((Some(d), m, Some(c))) => Some(Some((d, m, c))),
            Some(_) => top_scan(lines, skip, i + 1),
        }
    }
}

/// The top line as it is reported: district, the metro word if seen, class letter.
pub open spec fn top_line_text(d: Seq<char>, metro: bool, c: char) -> Seq<char> {
    if metro {
        d + seq![' '] + metro_word() + seq![' ', c]
    } else {
        d + seq![' ', c]
    }
}

fn clean_top_line(line: &[char]) -> (r: Vec<char>)
    ensures
        r@ == top_line_chars(line@),
{
    let mut r: Vec<char> = Vec::new();
    let mut i: usize = 0;
    while i < line.len()
        invariant
            i <= line@.len(),
            r@ == top_line_chars(line@.take(i as int)),
        decreases line@.len() - i,
    {
        let c = line[i];
        proof {
            assert(line@.take(i + 1) =~= line@.take(i as int).push(c));
            line@.take(i as int).lemma_filter_push(c, |c: char| keeps_in_top_line(c));
        }
        if ((is_alphabetic(c) || ('\u{980}' <= c && c <= '\u{9ff}')) && !('\u{9e6}' <= c && c
            <= '\u{9ef}') && !('0' <= c && c <= '9')) || is_whitespace(c) || c == '\u{200c}' || c
            == '\u{200d}' {
            r.push(c);
        }
        i = i + 1;
    }
    assert(line@.take(line@.len() as int) =~= line@);
    r
}

fn after_district_chars(dist: Option<Vec<char>>, rest: &[char]) -> (r: TopPartsChars)
    ensures
        parts_view(r) == after_district(opt_view(dist), rest@),
{
    let metro = metro_chars();
    if starts_with(rest, metro.as_slice()) {
        let tail = slice_chars(rest, METRO_CUT, rest.len());
        (dist, true, first_class_letter(tail.as_slice()))
    } else {
        (dist, false, first_class_letter(rest))
    }
}

fn correct_opt(input: &[char]) -> (r: Option<Vec<char>>)
    ensures
        opt_view(r) == corrected_district(input@),
{
    correct_district_chars(input)
}

fn two_token_chars(t0: &[char], t1: &[char]) -> (r: TopPartsChars)
    ensures
        parts_view(r) == two_token_parts(t0@, t1@),
{
    let metro = metro_chars();
    if same_chars(t1, metro.as_slice()) {
        (None, false, None)
    } else if starts_with(t1, metro.as_slice()) {
        let tail = slice_chars(t1, METRO_CUT, t1.len());
        (correct_opt(t0), true, first_class_letter(tail.as_slice()))
    } else if ends_with(t0, metro.as_slice()) {
        let head = slice_chars(t0, 0, t0.len() - METRO_CUT);
        (correct_opt(head.as_slice()), true, first_class_letter(t1))
    } else {
        (correct_opt(t0), false, first_class_letter(t1))
    }
}

fn chattogram_chars(d: Vec<char>) -> (r: Vec<char>)
    ensures
        r@ == chattogram_canonical(d@),
{
    if same_chars(d.as_slice(), district_chars(2).as_slice()) || same_chars(
        d.as_slice(),
        district_chars(1).as_slice(),
    ) {
        district_chars(1)
    } else {
        d
    }
}

fn fuzzy_token_chars(tok: &[char]) -> (r: Option<TopPartsChars>)
    ensures
        opt_parts_view(r) == fuzzy_token_parts(tok@, 0),
{
    let tok_len = utf8_length(tok);
    let mut k: usize = 0;
    while k < DISTRICT_COUNT
        invariant
            k <= DISTRICT_COUNT,
            tok_len == utf8_len(tok@),
            fuzzy_token_parts(tok@, 0) == fuzzy_token_parts(tok@, k as int),
        decreases DISTRICT_COUNT - k,
    {
        let d = district_chars(k);
        let d_len = utf8_length(d.as_slice());
        if d_len <= tok_len {
            match chars_in_byte_prefix(tok, d_len) {
                None => {
                    return None;
                },
                Some(i) => {
                    let prefix = slice_chars(tok, 0, i);
                    assert(prefix@ == tok@.take(i as int));
                    if edit_distance(prefix.as_slice(), d.as_slice()) <= 1 {
                        let rest = slice_chars(tok, i, tok.len());
                        assert(rest@ == tok@.skip(i as int));
                        return Some(after_district_chars(correct_opt(prefix.as_slice()), rest.as_slice()));
                    }
                },
            }
        }
        k = k + 1;
    }
    Some((None, false, None))
}

fn one_token_chars(tok: &[char]) -> (r: Option<TopPartsChars>)
    ensures
        opt_parts_view(r) == one_token_parts(tok@),
{
    let mut k: usize = 0;
    while k < DISTRICT_COUNT
        invariant
            k <= DISTRICT_COUNT,
            first_prefix_district(tok@, 0) == first_prefix_district(tok@, k as int),
        decreases DISTRICT_COUNT - k,
    {
        let d = district_chars(k);
        if starts_with(tok, d.as_slice()) {
            let rest = slice_chars(tok, d.len(), tok.len());
            assert(rest@ == tok@.skip(d@.len() as int));
            let canon = chattogram_chars(d);
            return Some(after_district_chars(Some(canon), rest.as_slice()));
        }
        k = k + 1;
    }
    if utf8_length(tok) >= 6 {
        fuzzy_token_chars(tok)
    } else {
        Some((None, false, None))
    }
}

fn line_parts_chars(toks: &Vec<Vec<char>>) -> (r: Option<TopPartsChars>)
    ensures
        opt_parts_view(r) == line_parts(view_all(toks@)),
{
    let ghost tv = view_all(toks@);
    if toks.len() == 3 {
        assert(tv[0] == toks@[0]@ && tv[1] == toks@[1]@ && tv[2] == toks@[2]@);
        let metro = metro_chars();
        Some(
            (
                correct_opt(toks[0].as_slice()),
                same_chars(toks[1].as_slice(), metro.as_slice()),
                first_class_letter(toks[2].as_slice()),
            ),
        )
    } else if toks.len() == 2 {
        assert(tv[0] == toks@[0]@ && tv[1] == toks@[1]@);
        Some(two_token_chars(toks[0].as_slice(), toks[1].as_slice()))
    } else if toks.len() == 1 {
        assert(tv[0] == toks@[0]@);
        one_token_chars(toks[0].as_slice())
    } else {
        Some((None, false, None))
    }
}

fn scan_top(lines: &Vec<Vec<char>>, skip: usize) -> (r: Option<Option<(Vec<char>, bool, char)>>)
    ensures
        match r {
            None => top_scan(view_all(lines@), skip as int, 0) is None,
            Some(None) => top_scan(view_all(lines@), skip as int, 0) == Some(
                None::<(Seq<char>, bool, char)>,
            ),
            Some(Some((d, m, c))) => top_scan(view_all(lines@), skip as int, 0) == Some(
                Some((d@, m, c)),
            ),
        },
{
    let ghost lv = view_all(lines@);
    let mut i: usize = 0;
    while i < lines.len()
        invariant
            i <= lines@.len(),
            lv == view_all(lines@),
            top_scan(lv, skip as int, 0) == top_scan(lv, skip as int, i as int),
        decreases lines@.len() - i,
    {
        if i != skip {
            assert(lv[i as int] == lines@[i as int]@);
            let cleaned = clean_top_line(lines[i].as_slice());
            let toks = split_words(cleaned.as_slice());
            match line_parts_chars(&toks) {
                None => {
                    return None;
                },
                Some((Some(d), m, Some(c))) => {
                    return Some(Some((d, m, c)));
                },
                Some(_) => {},
            }
        }
        i = i + 1;
    }
    Some(None)
}


// ---------------------------------------------------------------------------
// Bottom line and the whole plate
// ---------------------------------------------------------------------------

/// A character kept when a line is read as a bottom line: a digit, a dash or whitespace.
pub open spec fn keeps_in_bottom_line(c: char) -> bool {
    is_ascii_digit(c) || is_bengali_digit(c) || c == '-' || c == '\u{2014}' || c == '\u{2013}'
        || is_ws(c)
}

/// The characters of a line read as a bottom line.
pub open spec fn bottom_line_chars(line: Seq<char>) -> Seq<char> {
    line.filter(|c: char| keeps_in_bottom_line(c))
}

/// The first line, from `i` on, whose bottom-line reading matches the bottom-line
/// pattern: its index and the two digit groups.
pub open spec fn first_bottom(lines: Seq<Seq<char>>, i: int) -> Option<(int, Seq<char>, Seq<char>)>
    decreases lines.len() - i,
{
    if i >= lines.len() || i < 0 {
        None
    } else {
        match bottom_digit_groups(bottom_line_chars(lines[i])) {
            Some((head, tail)) => Some((i, head, tail)),
            None => first_bottom(lines, i + 1),
        }
    }
}

/// The lines a plate is read from: the text with Bengali digits, split into
/// trimmed lines.
pub open spec fn plate_lines(raw: Seq<char>) -> Seq<Seq<char>> {
    trimmed_lines(normalized(raw))
}

pub open spec fn bottom_line_error() -> Seq<char> {
    "Could not find valid license plate bottom line (XX-XXXX in Bengali digits)"@
}

pub open spec fn top_line_error() -> Seq<char> {
    "Could not find valid license plate top line (District, Class Letter, optional Metro)"@
}

/// A licence plate read from recognised text.
#[derive(Debug, Clone, PartialEq)]
pub struct ValidatedPlate {
    pub raw_text: String,
    pub top_line: String,
    pub bottom_line: String,
    pub district: String,
    pub metro: bool,
    pub class_letter: char,
    /// format: "XX-XXXX" in Bengali digits
    pub plate_number: String,
}

/// The value of a `ValidatedPlate`.
pub struct PlateView {
    pub raw_text: Seq<char>,
    pub top_line: Seq<char>,
    pub bottom_line: Seq<char>,
    pub district: Seq<char>,
    pub metro: bool,
    pub class_letter: char,
    pub plate_number: Seq<char>,
}

impl View for ValidatedPlate {
    type V = PlateView;

    open spec fn view(&self) -> PlateView {
        PlateView {
            raw_text: self.raw_text@,
            top_line: self.top_line@,
            bottom_line: self.bottom_line@,
            district: self.district@,
            metro: self.metro,
            class_letter: self.class_letter,
            plate_number: self.plate_number@,
        }
    }
}

pub open spec fn result_view(r: Result<ValidatedPlate, String>) -> Result<PlateView, Seq<char>> {
    match r {
        Ok(p) => Ok(p@),
        Err(e) => Err(e@),
    }
}

/// `None` stands for a text whose reading would cut a character in two.
pub open spec fn outcome_view(r: Option<Result<ValidatedPlate, String>>) -> Option<
    Result<PlateView, Seq<char>>,
> {
    match r {
        Some(q) => Some(result_view(q)),
        None => None,
    }
}

/// The plate read from `raw` once the bottom line was found on line
/// `bottom_index` with digit groups `head` and `tail`.
pub open spec fn finished_plate(
    raw: Seq<char>,
    lines: Seq<Seq<char>>,
    bottom_index: int,
    head: Seq<char>,
    tail: Seq<char>,
) -> Option<Result<PlateView, Seq<char>>> {
    let bottom = head + seq!['-'] + tail;
    match top_scan(lines, bottom_index, 0) {
        None => None,
        Some(None) => Some(Err(top_line_error())),
        Some(Some((d, m, c))) => Some(
            Ok(
                PlateView {
                    raw_text: raw,
                    top_line: top_line_text(d, m, c),
                    bottom_line: bottom,
                    district: d,
                    metro: m,
                    class_letter: c,
                    plate_number: bottom,
                },
            ),
        ),
    }
}

/// The outcome of reading a plate from `raw`; `None` where the reading would
/// cut a character in two.
pub open spec fn plate_outcome(raw: Seq<char>) -> Option<Result<PlateView, Seq<char>>> {
    let lines = plate_lines(raw);
    match first_bottom(lines, 0) {
        None => Some(Err(bottom_line_error())),
        Some((i, head, tail)) => finished_plate(raw, lines, i, head, tail),
    }
}

fn clean_bottom_line(line: &[char]) -> (r: Vec<char>)
    ensures
        r@ == bottom_line_chars(line@),
{
    let mut r: Vec<char> = Vec::new();
    let mut i: usize = 0;
    while i < line.len()
        invariant
            i <= line@.len(),
            r@ == bottom_line_chars(line@.take(i as int)),
        decreases line@.len() - i,
    {
        let c = line[i];
        proof {
            assert(line@.take(i + 1) =~= line@.take(i as int).push(c));
            line@.take(i as int).lemma_filter_push(c, |c: char| keeps_in_bottom_line(c));
        }
        if ('0' <= c && c <= '9') || ('\u{9e6}' <= c && c <= '\u{9ef}') || c == '-' || c
            == '\u{2014}' || c == '\u{2013}' || is_whitespace(c) {
            r.push(c);
        }
        i = i + 1;
    }
    assert(line@.take(line@.len() as int) =~= line@);
    r
}

fn top_line_string(d: &Vec<char>, metro: bool, c: char) -> (r: String)
    ensures
        r@ == top_line_text(d@, metro, c),
{
    let mut v: Vec<char> = d.clone();
    v.push(' ');
    if metro {
        let m = metro_chars();
        let mut k: usize = 0;
        while k < m.len()
            invariant
                k <= m@.len(),
                m@ == metro_word(),
                v@ == d@ + seq![' '] + m@.take(k as int),
            decreases m@.len() - k,
        {
            v.push(m[k]);
            k = k + 1;
            assert(v@ =~= d@ + seq![' '] + m@.take(k as int));
        }
        v.push(' ');
        assert(m@.take(m@.len() as int) =~= m@);
    }
    v.push(c);
    let r = string_of(&v);
    assert(r@ =~= top_line_text(d@, metro, c));
    r
}

fn finish_from_lines(
    raw_ai_text: &str,
    lines: &Vec<Vec<char>>,
    bottom_index: usize,
    head: &str,
    tail: &str,
) -> (r: Option<Result<ValidatedPlate, String>>)
    ensures
        outcome_view(r) == finished_plate(raw_ai_text@, view_all(lines@), bottom_index as int, head@, tail@),
{
    match scan_top(lines, bottom_index) {
        None => None,
        Some(None) => Some(Err(String::from_str("Could not find valid license plate top line (District, Class Letter, optional Metro)"))),
        Some(Some((d, m, c))) => {
            let mut bottom = String::from_str(head);
            bottom.push('-');
            bottom.append(tail);
            assert(bottom@ =~= head@ + seq!['-'] + tail@);
            let top_line = top_line_string(&d, m, c);
            Some(
                Ok(
                    ValidatedPlate {
                        raw_text: String::from_str(raw_ai_text),
                        top_line,
                        bottom_line: bottom.clone(),
                        district: string_of(&d),
                        metro: m,
                        class_letter: c,
                        plate_number: bottom,
                    },
                ),
            )
        },
    }
}

fn plate_lines_of(raw_ai_text: &str) -> (v: Vec<Vec<char>>)
    ensures
        view_all(v@) == plate_lines(raw_ai_text@),
{
    let chars = chars_of(raw_ai_text);
    let normalized_text = normalize_chars(chars.as_slice());
    lines_trimmed(normalized_text.as_slice())
}

/// Reads the top line of a plate from `raw_ai_text` once its bottom line was
/// found: `bottom_index` is the line the bottom-line pattern matched and `head`
/// and `tail` are its two digit groups. `None` where reading a merged top line
/// would cut a character in two.
pub fn finish_plate(raw_ai_text: &str, bottom_index: usize, head: &str, tail: &str) -> (r: Option<
    Result<ValidatedPlate, String>,
>)
    ensures
        outcome_view(r) == finished_plate(
            raw_ai_text@,
            plate_lines(raw_ai_text@),
            bottom_index as int,
            head@,
            tail@,
        ),
{
    let lines = plate_lines_of(raw_ai_text);
    finish_from_lines(raw_ai_text, &lines, bottom_index, head, tail)
}

/// A plate number as plates print it: two Bengali digits, a hyphen, four
/// Bengali digits.
pub open spec fn is_plate_number(s: Seq<char>) -> bool {
    &&& s.len() == 7
    &&& s[2] == '-'
    &&& forall|i: int| 0 <= i < 7 && i != 2 ==> is_bengali_digit(#[trigger] s[i])
}

fn read_plate(raw_ai_text: &str) -> (r: Option<Result<ValidatedPlate, String>>)
    ensures
        outcome_view(r) == plate_outcome(raw_ai_text@),
        r matches Some(Ok(p)) ==> is_plate_number(p.plate_number@),
{
    let lines = plate_lines_of(raw_ai_text);
    let ghost lv = view_all(lines@);
    let pattern = "([০-৯]{2})\\s*[-—–\\s]\\s*([০-৯]{4})";
    assert(pattern@ == bottom_line_pattern());
    let mut i: usize = 0;
    while i < lines.len()
        invariant
            i <= lines@.len(),
            lv == view_all(lines@),
            lv == plate_lines(raw_ai_text@),
            pattern@ == bottom_line_pattern(),
            first_bottom(lv, 0) == first_bottom(lv, i as int),
        decreases lines@.len() - i,
    {
        assert(lv[i as int] == lines@[i as int]@);
        let cleaned = clean_bottom_line(lines[i].as_slice());
        let cleaned_text = string_of(&cleaned);
        match regex_captures(pattern, cleaned_text.as_str()) {
            Some(groups) => {
                let head = match &groups[1] {
                    Some(h) => h.clone(),
                    None => String::new(),
                };
                let tail = match &groups[2] {
                    Some(t) => t.clone(),
                    None => String::new(),
                };
                proof {
                    crate::pattern::lemma_bottom_groups_are_digit_runs(cleaned_text@);
                    crate::pattern::lemma_digit_runs_make_plate_number(head@, tail@);
                }
                return finish_from_lines(raw_ai_text, &lines, i, head.as_str(), tail.as_str());
            },
            None => {},
        }
        i = i + 1;
    }
    Some(Err(String::from_str("Could not find valid license plate bottom line (XX-XXXX in Bengali digits)")))
}

/// Validates OCR text and extracts structured license plate details.
pub fn validate_plate(raw_ai_text: &str) -> (r: Result<ValidatedPlate, String>)
    requires
        plate_outcome(raw_ai_text@) is Some,
    ensures
        Some(result_view(r)) == plate_outcome(raw_ai_text@),
        r matches Ok(p) ==> is_plate_number(p.plate_number@),
{
    match read_plate(raw_ai_text) {
        Some(r) => r,
        None => Err(String::new()),
    }
}

/// Validates recognised text and extracts the licence plate where the text can
/// be read; `None` where reading a merged top line would cut a character in two.
pub fn try_validate_plate(raw_ai_text: &str) -> (r: Option<Result<ValidatedPlate, String>>)
    ensures
        outcome_view(r) == plate_outcome(raw_ai_text@),
        r matches Some(Ok(p)) ==> is_plate_number(p.plate_number@),
{
    match read_plate(raw_ai_text) {
        None => None,
        Some(_) => Some(validate_plate(raw_ai_text)),
    }
}


// ---------------------------------------------------------------------------
// Laws
// ---------------------------------------------------------------------------

/// Normalizing digits twice changes nothing more than normalizing once.
pub proof fn law_normalize_idempotent(s: Seq<char>)
    ensures
        normalized(normalized(s)) == normalized(s),
{
    assert(normalized(normalized(s)) =~= normalized(s));
}

/// Normalizing keeps the length of a text and leaves no ASCII digit in it.
pub proof fn law_normalized_has_bengali_digits_only(s: Seq<char>)
    ensures
        normalized(s).len() == s.len(),
        forall|i: int| 0 <= i < s.len() ==> !is_ascii_digit(#[trigger] normalized(s)[i]),
        forall|i: int|
            0 <= i < s.len() && is_ascii_digit(s[i]) ==> is_bengali_digit(#[trigger] normalized(s)[i]),
{
}


// ---------------------------------------------------------------------------
// Merged top lines
// ---------------------------------------------------------------------------

/// A top line written without spaces: district, metro word, class letter.
pub open spec fn merged_top_line(d: Seq<char>, c: char) -> Seq<char> {
    d + metro_word() + seq![c]
}

#[verifier::spinoff_prover]
proof fn lemma_entries_differ(j: int, k: int)
    requires
        0 <= j < k < DISTRICT_COUNT,
        !(j == 1 && k == 2),
    ensures
        exists|i: int|
            0 <= i < district(j).len() && i < district(k).len() && #[trigger] district(j)[i] != district(k)[i],
{
    if j == 27 && k == 28 {
        assert(district(j)[10] != district(k)[10]);
    } else if j == 63 && k == 64 {
        assert(district(j)[7] != district(k)[7]);
    } else if (j == 26 && k == 34) || (j == 5 && k == 63) || (j == 5 && k == 64) {
        assert(district(j)[3] != district(k)[3]);
    } else if district(j)[0] != district(k)[0] {
    } else if district(j)[1] != district(k)[1] {
    } else {
        assert(district(j)[2] != district(k)[2]);
    }
}

proof fn lemma_first_prefix_from(k: int, tail: Seq<char>, j: int)
    requires
        0 <= j <= k < DISTRICT_COUNT,
        k != 2,
    ensures
        first_prefix_district(district(k) + tail, j) == Some(k),
    decreases k - j,
{
    let t = district(k) + tail;
    if j < k {
        lemma_entries_differ(j, k);
        let i = choose|i: int|
            0 <= i < district(j).len() && i < district(k).len() && #[trigger] district(j)[i] != district(k)[i];
        assert(t[i] == district(k)[i]);
        if district(j).is_prefix_of(t) {
            assert(t.subrange(0, district(j).len() as int)[i] == t[i]);
        }
        lemma_first_prefix_from(k, tail, j + 1);
    } else {
        assert(t.subrange(0, district(k).len() as int) =~= district(k));
    }
}

proof fn lemma_district_chars(k: int)
    requires
        0 <= k < DISTRICT_COUNT,
    ensures
        district(k).len() >= 4,
        forall|i: int|
            0 <= i < district(k).len() ==> '\u{981}' <= #[trigger] district(k)[i] && district(k)[i] <= '\u{9df}',
{
}

proof fn lemma_top_line_keeps_all(s: Seq<char>)
    requires
        forall|i: int| 0 <= i < s.len() ==> keeps_in_top_line(#[trigger] s[i]),
    ensures
        top_line_chars(s) == s,
    decreases s.len(),
{
    if s.len() > 0 {
        let init = s.drop_last();
        assert forall|i: int| 0 <= i < init.len() implies keeps_in_top_line(#[trigger] init[i]) by {
            assert(init[i] == s[i]);
        }
        lemma_top_line_keeps_all(init);
        init.lemma_filter_push(s.last(), |c: char| keeps_in_top_line(c));
        assert(init.push(s.last()) =~= s);
    } else {
        reveal(Seq::filter);
        assert(top_line_chars(s) =~= s);
    }
}

proof fn lemma_distinct_entries(j: int, k: int)
    requires
        0 <= j < DISTRICT_COUNT,
        0 <= k < DISTRICT_COUNT,
        j != k,
        !(j == 1 && k == 2),
        !(j == 2 && k == 1),
    ensures
        district(j) != district(k),
{
    if j < k {
        lemma_entries_differ(j, k);
    } else {
        lemma_entries_differ(k, j);
    }
}

proof fn lemma_spaced_keeps_all(d: Seq<char>, c: char)
    requires
        forall|i: int| 0 <= i < d.len() ==> '\u{981}' <= #[trigger] d[i] && d[i] <= '\u{9df}',
        is_class_letter(c),
    ensures
        top_line_chars(top_line_text(d, true, c)) == top_line_text(d, true, c),
{
    let m = metro_word();
    let sp = top_line_text(d, true, c);
    assert forall|i: int| 0 <= i < sp.len() implies keeps_in_top_line(#[trigger] sp[i]) by {
        if i < d.len() {
            assert(sp[i] == d[i]);
        } else if i == d.len() || i == d.len() + 7 {
        } else if i < d.len() + 7 {
            assert(sp[i] == m[i - d.len() - 1]);
        }
    }
    lemma_top_line_keeps_all(sp);
}

proof fn lemma_spaced_words(d: Seq<char>, c: char)
    requires
        d.len() > 0,
        forall|i: int| 0 <= i < d.len() ==> '\u{981}' <= #[trigger] d[i] && d[i] <= '\u{9df}',
        is_class_letter(c),
    ensures
        words(top_line_text(d, true, c)) == seq![d, metro_word(), seq![c]],
{
    assert forall|i: int| 0 <= i < d.len() implies !is_ws(#[trigger] d[i]) by {}
    let m = metro_word();
    let y = m.push(' ') + seq![c];
    assert(top_line_text(d, true, c) =~= d.push(' ') + y);
    lemma_words_space(d, y);
    lemma_words_space(m, seq![c]);
    lemma_words_single(d);
    assert forall|i: int| 0 <= i < m.len() implies !is_ws(#[trigger] m[i]) by {}
    lemma_words_single(m);
    lemma_words_single(seq![c]);
    assert(seq![d] + (seq![m] + seq![seq![c]]) =~= seq![d, m, seq![c]]);
}

proof fn lemma_merged_keeps_all(d: Seq<char>, c: char)
    requires
        d.len() > 0,
        forall|i: int| 0 <= i < d.len() ==> '\u{981}' <= #[trigger] d[i] && d[i] <= '\u{9df}',
        is_class_letter(c),
    ensures
        words(top_line_chars(merged_top_line(d, c))) == seq![merged_top_line(d, c)],
{
    let m = metro_word();
    let mg = merged_top_line(d, c);
    assert forall|i: int| 0 <= i < mg.len() implies keeps_in_top_line(#[trigger] mg[i]) && !is_ws(
        mg[i],
    ) by {
        if i < d.len() {
            assert(mg[i] == d[i]);
        } else if i < d.len() + 6 {
            assert(mg[i] == m[i - d.len()]);
        }
    }
    lemma_top_line_keeps_all(mg);
    lemma_words_single(mg);
}

proof fn lemma_after_metro(c: char)
    requires
        is_class_letter(c),
    ensures
        after_district(Some(Seq::<char>::empty()), metro_word() + seq![c]).1,
        after_district(Some(Seq::<char>::empty()), metro_word() + seq![c]).2 == Some(c),
{
    let m = metro_word();
    let rest = m + seq![c];
    assert(rest.subrange(0, m.len() as int) =~= m);
    let after = rest.skip(METRO_CUT as int);
    assert(after =~= seq!['\u{9cb}', c]);
    assert(after.drop_first() =~= seq![c]);
    assert(find_class(seq![c]) == Some(c));
    assert(find_class(after) == Some(c));
}

proof fn lemma_merged_parts(d: Seq<char>, k: int, c: char)
    requires
        0 <= k < DISTRICT_COUNT,
        d == district(k),
        first_prefix_district(merged_top_line(d, c), 0) == Some(k),
        chattogram_canonical(d) == canonical_district(d),
        is_class_letter(c),
    ensures
        one_token_parts(merged_top_line(d, c)) == Some((Some(canonical_district(d)), true, Some(c))),
{
    let mg = merged_top_line(d, c);
    assert(mg.skip(d.len() as int) =~= metro_word() + seq![c]);
    lemma_after_metro(c);
}

#[verifier::spinoff_prover]
proof fn lemma_spaced_line(k: int, c: char)
    requires
        0 <= k < DISTRICT_COUNT,
        is_class_letter(c),
    ensures
        line_parts(words(top_line_chars(top_line_text(district(k), true, c)))) == Some(
            (Some(canonical_district(district(k))), true, Some(c)),
        ),
{
    let d = district(k);
    lemma_district_chars(k);
    assert(is_district(d));
    lemma_spaced_keeps_all(d, c);
    lemma_spaced_words(d, c);
    lemma_three_tokens(d, c);
}

proof fn lemma_three_tokens(d: Seq<char>, c: char)
    requires
        is_district(d),
        is_class_letter(c),
    ensures
        line_parts(seq![d, metro_word(), seq![c]]) == Some(
            (Some(canonical_district(d)), true, Some(c)),
        ),
{
    assert(corrected_district(d) == Some(canonical_district(d)));
    assert(find_class(seq![c]) == Some(c));
}

#[verifier::spinoff_prover]
proof fn lemma_merged_line(k: int, c: char)
    requires
        0 <= k < DISTRICT_COUNT,
        k != 2,
        k != 27,
        k != 64,
        is_class_letter(c),
    ensures
        line_parts(words(top_line_chars(merged_top_line(district(k), c)))) == Some(
            (Some(canonical_district(district(k))), true, Some(c)),
        ),
{
    let d = district(k);
    lemma_district_chars(k);
    assert(merged_top_line(d, c) =~= d + (metro_word() + seq![c]));
    lemma_first_prefix_from(k, metro_word() + seq![c], 0);
    lemma_distinct_entries(k, 64);
    lemma_distinct_entries(k, 27);
    lemma_merged_keeps_all(d, c);
    lemma_merged_parts(d, k, c);
}

proof fn lemma_top_scan_first_line(top: Seq<char>, bottom: Seq<char>, d: Seq<char>, c: char)
    requires
        line_parts(words(top_line_chars(top))) == Some((Some(d), true, Some(c))),
    ensures
        top_scan(seq![top, bottom], 1, 0) == Some(Some((d, true, c))),
{
    assert(seq![top, bottom][0] == top);
}

proof fn lemma_plate_from_top_line(
    raw: Seq<char>,
    top: Seq<char>,
    bottom: Seq<char>,
    head: Seq<char>,
    tail: Seq<char>,
    d: Seq<char>,
    c: char,
)
    requires
        plate_lines(raw) == seq![top, bottom],
        first_bottom(plate_lines(raw), 0) == Some((1int, head, tail)),
        top_scan(seq![top, bottom], 1, 0) == Some(Some((d, true, c))),
    ensures
        plate_outcome(raw) == Some(
            Ok::<PlateView, Seq<char>>(
                PlateView {
                    raw_text: raw,
                    top_line: top_line_text(d, true, c),
                    bottom_line: head + seq!['-'] + tail,
                    district: d,
                    metro: true,
                    class_letter: c,
                    plate_number: head + seq!['-'] + tail,
                },
            ),
        ),
{
}

proof fn lemma_plate_lines_two(top: Seq<char>, bottom: Seq<char>)
    requires
        top.len() > 0,
        !is_ws(top[0]),
        !is_ws(top.last()),
        forall|i: int| 0 <= i < top.len() ==> #[trigger] top[i] != '\n' && !is_ascii_digit(top[i]),
        bottom.len() > 0,
        forall|i: int| 0 <= i < bottom.len() ==> #[trigger] bottom[i] != '\n',
    ensures
        plate_lines(top + seq!['\n'] + bottom) == seq![top, trim(normalized(bottom))],
{
    let nb = normalized(bottom);
    assert(normalized(top + seq!['\n'] + bottom) =~= top + seq!['\n'] + nb);
    assert forall|i: int| 0 <= i < nb.len() implies #[trigger] nb[i] != '\n' by {
        assert(nb[i] == bengali_digit_of(bottom[i]));
    }
    lemma_two_lines(top, nb);
    assert(trim_start(top) == top);
    assert(trim_end(top) == top);
    assert(seq![top, nb].map_values(|l: Seq<char>| trim(l)) =~= seq![trim(top), trim(nb)]);
}

proof fn lemma_top_line_shape(k: int, top: Seq<char>, c: char)
    requires
        0 <= k < DISTRICT_COUNT,
        is_class_letter(c),
        top == top_line_text(district(k), true, c) || top == merged_top_line(district(k), c),
    ensures
        top.len() > 0,
        !is_ws(top[0]),
        !is_ws(top.last()),
        forall|i: int|
            0 <= i < top.len() ==> #[trigger] top[i] != '\n' && !is_ascii_digit(top[i]) && !is_bengali_digit(
                top[i],
            ),
{
    let d = district(k);
    let m = metro_word();
    lemma_district_chars(k);
    assert(top[0] == d[0]);
    assert(top.last() == c);
    assert forall|i: int| 0 <= i < top.len() implies #[trigger] top[i] != '\n' && !is_ascii_digit(top[i])
        && !is_bengali_digit(top[i]) by {
        if i < d.len() {
            assert(top[i] == d[i]);
        } else if top == merged_top_line(d, c) {
            if i < d.len() + 6 {
                assert(top[i] == m[i - d.len()]);
            }
        } else if i > d.len() && i < d.len() + 7 {
            assert(top[i] == m[i - d.len() - 1]);
        }
    }
}

proof fn lemma_bottom_chars_without_digits(s: Seq<char>)
    requires
        forall|i: int| 0 <= i < s.len() ==> !is_bengali_digit(#[trigger] s[i]),
    ensures
        forall|i: int|
            0 <= i < bottom_line_chars(s).len() ==> !is_bengali_digit(#[trigger] bottom_line_chars(s)[i]),
    decreases s.len(),
{
    if s.len() > 0 {
        let init = s.drop_last();
        assert forall|i: int| 0 <= i < init.len() implies !is_bengali_digit(#[trigger] init[i]) by {
            assert(init[i] == s[i]);
        }
        lemma_bottom_chars_without_digits(init);
        init.lemma_filter_push(s.last(), |c: char| keeps_in_bottom_line(c));
        assert(init.push(s.last()) =~= s);
        let f = bottom_line_chars(init);
        if keeps_in_bottom_line(s.last()) {
            assert forall|i: int| 0 <= i < f.push(s.last()).len() implies !is_bengali_digit(
                #[trigger] f.push(s.last())[i],
            ) by {
                if i < f.len() {
                    assert(f.push(s.last())[i] == f[i]);
                }
            }
        }
    } else {
        reveal(Seq::filter);
    }
}

proof fn lemma_no_digit_no_match(h: Seq<char>, p: int)
    requires
        0 <= p,
        forall|i: int| 0 <= i < h.len() ==> !is_bengali_digit(#[trigger] h[i]),
    ensures
        first_bottom_match(h, p) is None,
    decreases h.len() - p,
{
    if p < h.len() {
        lemma_no_digit_no_match(h, p + 1);
    }
}

/// A merged top line, "ঢাকামেট্রোঘ", is read like the same line written with
/// spaces, "ঢাকা মেট্রো ঘ": either names the district in its reported spelling,
/// the metro word and the class letter, whatever line follows. A text of such
/// a top line and a bottom line is split into those two lines; when the
/// bottom-line pattern finds the two digit groups in the bottom line, both
/// texts read as the same plate, with those digits as its number, but for the
/// recognised text it keeps, and when it finds none both are refused alike.
/// This holds for every entry of the district table but "চট্টগ্রাম", whose
/// merged form first matches "চট্ট", and the spellings "ব্রাহ্মণবাড়ীয়া" and
/// "রাজবাড়ি", which a merged line reports as written.
pub proof fn law_merged_top_line_reads_like_spaced(k: int, c: char, bottom: Seq<char>)
    requires
        0 <= k < DISTRICT_COUNT,
        k != 2,
        k != 27,
        k != 64,
        is_class_letter(c),
        bottom.len() > 0,
        forall|i: int| 0 <= i < bottom.len() ==> #[trigger] bottom[i] != '\n',
    ensures
        top_scan(seq![top_line_text(district(k), true, c), bottom], 1, 0) == Some(
            Some((canonical_district(district(k)), true, c)),
        ),
        top_scan(seq![merged_top_line(district(k), c), bottom], 1, 0) == Some(
            Some((canonical_district(district(k)), true, c)),
        ),
        plate_lines(top_line_text(district(k), true, c) + seq!['\n'] + bottom) == seq![
            top_line_text(district(k), true, c),
            trim(normalized(bottom)),
        ],
        plate_lines(merged_top_line(district(k), c) + seq!['\n'] + bottom) == seq![
            merged_top_line(district(k), c),
            trim(normalized(bottom)),
        ],
        plate_outcome(merged_top_line(district(k), c) + seq!['\n'] + bottom) == with_raw_text(
            plate_outcome(top_line_text(district(k), true, c) + seq!['\n'] + bottom),
            merged_top_line(district(k), c) + seq!['\n'] + bottom,
        ),
        match bottom_digit_groups(bottom_line_chars(trim(normalized(bottom)))) {
            Some((head, tail)) => plate_outcome(top_line_text(district(k), true, c) + seq!['\n'] + bottom)
                matches Some(Ok(p)) && p.district == canonical_district(district(k)) && p.metro
                && p.class_letter == c && p.plate_number == head + seq!['-'] + tail,
            None => plate_outcome(top_line_text(district(k), true, c) + seq!['\n'] + bottom) == Some(
                Err::<PlateView, Seq<char>>(bottom_line_error()),
            ),
        },
{
    let d = district(k);
    let top_sp = top_line_text(d, true, c);
    let top_mg = merged_top_line(d, c);
    let canon = canonical_district(d);
    let line = trim(normalized(bottom));
    lemma_spaced_line(k, c);
    lemma_merged_line(k, c);
    lemma_top_scan_first_line(top_sp, bottom, canon, c);
    lemma_top_scan_first_line(top_mg, bottom, canon, c);
    lemma_top_scan_first_line(top_sp, line, canon, c);
    lemma_top_scan_first_line(top_mg, line, canon, c);
    lemma_top_line_shape(k, top_sp, c);
    lemma_top_line_shape(k, top_mg, c);
    lemma_plate_lines_two(top_sp, bottom);
    lemma_plate_lines_two(top_mg, bottom);
    lemma_bottom_chars_without_digits(top_sp);
    lemma_bottom_chars_without_digits(top_mg);
    lemma_no_digit_no_match(bottom_line_chars(top_sp), 0);
    lemma_no_digit_no_match(bottom_line_chars(top_mg), 0);
    let raw_sp = top_sp + seq!['\n'] + bottom;
    let raw_mg = top_mg + seq!['\n'] + bottom;
    let lines_sp = seq![top_sp, line];
    let lines_mg = seq![top_mg, line];
    assert(lines_sp[0] == top_sp && lines_sp[1] == line);
    assert(lines_mg[0] == top_mg && lines_mg[1] == line);
    assert(first_bottom(lines_sp, 0) == first_bottom(lines_sp, 1));
    assert(first_bottom(lines_mg, 0) == first_bottom(lines_mg, 1));
    match bottom_digit_groups(bottom_line_chars(line)) {
        Some((head, tail)) => {
            lemma_plate_from_top_line(raw_sp, top_sp, line, head, tail, canon, c);
            lemma_plate_from_top_line(raw_mg, top_mg, line, head, tail, canon, c);
        },
        None => {
            assert(first_bottom(lines_sp, 2) is None);
            assert(first_bottom(lines_mg, 2) is None);
        },
    }
}

// ---------------------------------------------------------------------------
// Names one edit away from a district
// ---------------------------------------------------------------------------

proof fn lemma_first_near_found(input: Seq<char>, i: int, k: int)
    requires
        0 <= i <= k < DISTRICT_COUNT,
        lev(input, district(k)) <= 1,
    ensures
        first_near_district(input, i) matches Some(j) && 0 <= j < DISTRICT_COUNT && lev(input, district(j))
            <= 1,
    decreases k - i,
{
    if lev(input, district(i)) > 1 {
        lemma_first_near_found(input, i + 1, k);
    }
}

/// A name within one edit (one substitution, insertion or deletion) of a
/// district of the table is always corrected, whether it is shorter, as long
/// as or longer than that district: to the reported spelling of a district of
/// the table that is itself within one edit of the name.
pub proof fn law_near_names_are_corrected(input: Seq<char>, k: int)
    requires
        0 <= k < DISTRICT_COUNT,
        lev(input, district(k)) <= 1,
    ensures
        corrected_district(input) matches Some(d) && exists|j: int|
            0 <= j < DISTRICT_COUNT && lev(input, #[trigger] district(j)) <= 1 && d == canonical_district(
                district(j),
            ),
{
    if is_district(input) {
        let j = choose|j: int| 0 <= j < DISTRICT_COUNT && #[trigger] district(j) == input;
        lemma_lev_zero_iff_equal(input, district(j));
    } else {
        lemma_first_near_found(input, 0, k);
    }
}

proof fn lemma_utf8_three(s: Seq<char>)
    requires
        forall|i: int| 0 <= i < s.len() ==> '\u{800}' <= #[trigger] s[i] && s[i] < '\u{10000}',
    ensures
        utf8_len(s) == 3 * s.len(),
    decreases s.len(),
{
    if s.len() > 0 {
        let init = s.drop_last();
        assert forall|i: int| 0 <= i < init.len() implies '\u{800}' <= #[trigger] init[i] && init[i] < '\u{10000}' by {
            assert(init[i] == s[i]);
        }
        lemma_utf8_three(init);
        assert(s.last() == s[s.len() - 1]);
    }
}

proof fn lemma_byte_prefix_three(s: Seq<char>, n: int)
    requires
        0 <= n <= s.len(),
        forall|i: int| 0 <= i < s.len() ==> '\u{800}' <= #[trigger] s[i] && s[i] < '\u{10000}',
    ensures
        byte_prefix_chars(s, 3 * n) == Some(n),
{
    assert forall|m: int| 0 <= m <= s.len() implies #[trigger] utf8_len(s.take(m)) == 3 * m by {
        assert forall|i: int| 0 <= i < s.take(m).len() implies '\u{800}' <= #[trigger] s.take(m)[i]
            && s.take(m)[i] < '\u{10000}' by {
            assert(s.take(m)[i] == s[i]);
        }
        lemma_utf8_three(s.take(m));
    }
    assert(utf8_len(s.take(n)) == 3 * n);
}

proof fn lemma_after_metro_any(dist: Option<Seq<char>>, c: char)
    requires
        is_class_letter(c),
    ensures
        after_district(dist, metro_word() + seq![c]) == (dist, true, Some(c)),
{
    let m = metro_word();
    let rest = m + seq![c];
    assert(rest.subrange(0, m.len() as int) =~= m);
    let after = rest.skip(METRO_CUT as int);
    assert(after =~= seq!['\u{9cb}', c]);
    assert(after.drop_first() =~= seq![c]);
    assert(find_class(seq![c]) == Some(c));
    assert(find_class(after) == Some(c));
}

proof fn lemma_bengali_merged_line(t: Seq<char>, c: char)
    requires
        t.len() > 0,
        forall|i: int| 0 <= i < t.len() ==> '\u{980}' <= #[trigger] t[i] && t[i] <= '\u{9ff}' && !is_bengali_digit(t[i]),
        is_class_letter(c),
    ensures
        words(top_line_chars(merged_top_line(t, c))) == seq![merged_top_line(t, c)],
        forall|i: int|
            0 <= i < merged_top_line(t, c).len() ==> '\u{800}' <= #[trigger] merged_top_line(t, c)[i]
                && merged_top_line(t, c)[i] < '\u{10000}',
{
    let m = metro_word();
    let mg = merged_top_line(t, c);
    assert forall|i: int| 0 <= i < mg.len() implies keeps_in_top_line(#[trigger] mg[i]) && !is_ws(mg[i]) && '\u{800}'
        <= mg[i] && mg[i] < '\u{10000}' by {
        if i < t.len() {
            assert(mg[i] == t[i]);
        } else if i < t.len() + 6 {
            assert(mg[i] == m[i - t.len()]);
        }
    }
    lemma_top_line_keeps_all(mg);
    lemma_words_single(mg);
}

/// No entry of the table other than `k` is within one edit of a beginning of
/// `tok`.
pub open spec fn only_near_district(tok: Seq<char>, k: int) -> bool {
    forall|j: int, n: int|
        0 <= j < DISTRICT_COUNT && j != k && 0 <= n <= tok.len() ==> lev(
            #[trigger] tok.take(n),
            #[trigger] district(j),
        ) > 1
}

proof fn lemma_no_prefix_district(tok: Seq<char>, k: int, j: int)
    requires
        0 <= k < DISTRICT_COUNT,
        0 <= j,
        only_near_district(tok, k),
        !district(k).is_prefix_of(tok),
    ensures
        first_prefix_district(tok, j) is None,
    decreases DISTRICT_COUNT - j,
{
    if j < DISTRICT_COUNT {
        if j != k && district(j).is_prefix_of(tok) {
            assert(tok.take(district(j).len() as int) =~= district(j));
            lemma_lev_zero_iff_equal(tok.take(district(j).len() as int), district(j));
        }
        lemma_no_prefix_district(tok, k, j + 1);
    }
}

proof fn lemma_fuzzy_finds(tok: Seq<char>, k: int, j: int)
    requires
        0 <= j <= k < DISTRICT_COUNT,
        only_near_district(tok, k),
        district(k).len() <= tok.len(),
        lev(tok.take(district(k).len() as int), district(k)) <= 1,
        forall|i: int| 0 <= i < tok.len() ==> '\u{800}' <= #[trigger] tok[i] && tok[i] < '\u{10000}',
    ensures
        fuzzy_token_parts(tok, j) == Some(
            after_district(
                corrected_district(tok.take(district(k).len() as int)),
                tok.skip(district(k).len() as int),
            ),
        ),
    decreases k - j,
{
    lemma_district_chars(j);
    lemma_utf8_three(district(j));
    lemma_utf8_three(tok);
    if j < k {
        if utf8_len(district(j)) <= utf8_len(tok) {
            lemma_byte_prefix_three(tok, district(j).len() as int);
            assert(lev(tok.take(district(j).len() as int), district(j)) > 1);
        }
        lemma_fuzzy_finds(tok, k, j + 1);
    } else {
        lemma_byte_prefix_three(tok, district(k).len() as int);
    }
}

proof fn lemma_first_near_only(input: Seq<char>, k: int, j: int)
    requires
        0 <= j <= k < DISTRICT_COUNT,
        lev(input, district(k)) <= 1,
        forall|i: int| 0 <= i < DISTRICT_COUNT && i != k ==> lev(input, #[trigger] district(i)) > 1,
    ensures
        first_near_district(input, j) == Some(k),
    decreases k - j,
{
    if j < k {
        lemma_first_near_only(input, k, j + 1);
    }
}

/// A merged top line whose district is misspelled by one substituted
/// character, "ডাকামেট্রোঘ", reads like the correctly spelled line "ঢাকা মেট্রো ঘ":
/// the district the misspelling is one edit from, in its reported spelling,
/// the metro word and the class letter. This holds whenever that district is
/// the only entry of the table within one edit of a beginning of the merged
/// line.
pub proof fn law_misspelled_merged_top_line(k: int, t: Seq<char>, c: char)
    requires
        0 <= k < DISTRICT_COUNT,
        is_class_letter(c),
        t.len() == district(k).len(),
        t != district(k),
        lev(t, district(k)) <= 1,
        forall|i: int| 0 <= i < t.len() ==> '\u{980}' <= #[trigger] t[i] && t[i] <= '\u{9ff}' && !is_bengali_digit(t[i]),
        only_near_district(merged_top_line(t, c), k),
    ensures
        line_parts(words(top_line_chars(merged_top_line(t, c)))) == Some(
            (Some(canonical_district(district(k))), true, Some(c)),
        ),
        line_parts(words(top_line_chars(merged_top_line(t, c)))) == line_parts(
            words(top_line_chars(top_line_text(district(k), true, c))),
        ),
{
    let d = district(k);
    let tok = merged_top_line(t, c);
    lemma_district_chars(k);
    lemma_bengali_merged_line(t, c);
    assert(tok.take(t.len() as int) =~= t);
    assert(tok.skip(t.len() as int) =~= metro_word() + seq![c]);
    // No district begins the merged line.
    if d.is_prefix_of(tok) {
        assert(tok.take(d.len() as int) =~= d);
    }
    lemma_no_prefix_district(tok, k, 0);
    // It is long enough for the fuzzy reading, which finds `k`.
    lemma_utf8_three(tok);
    lemma_fuzzy_finds(tok, k, 0);
    // The misspelled name corrects to `k`.
    assert forall|i: int| 0 <= i < DISTRICT_COUNT && i != k implies lev(t, #[trigger] district(i)) > 1 by {
        assert(lev(tok.take(t.len() as int), district(i)) > 1);
    }
    if is_district(t) {
        let j = choose|j: int| 0 <= j < DISTRICT_COUNT && #[trigger] district(j) == t;
        lemma_lev_zero_iff_equal(t, district(j));
    }
    lemma_first_near_only(t, k, 0);
    assert(corrected_district(t) == Some(canonical_district(d)));
    lemma_after_metro_any(Some(canonical_district(d)), c);
    assert(one_token_parts(tok) == Some((Some(canonical_district(d)), true, Some(c))));
    lemma_spaced_line(k, c);
}

/// `o` with the recognised text of a read plate replaced by `raw`.
pub open spec fn with_raw_text(o: Option<Result<PlateView, Seq<char>>>, raw: Seq<char>) -> Option<
    Result<PlateView, Seq<char>>,
> {
    match o {
        Some(Ok(p)) => Some(Ok(PlateView { raw_text: raw, ..p })),
        _ => o,
    }
}

/// Reading a plate does not depend on whether its digits were recognised as
/// ASCII or Bengali digits: the text with normalized digits gives the same
/// outcome, but for the recognised text the plate records.
pub proof fn law_plate_reading_ignores_digit_script(raw: Seq<char>)
    ensures
        plate_outcome(normalized(raw)) == with_raw_text(plate_outcome(raw), normalized(raw)),
{
    law_normalize_idempotent(raw);
}

proof fn lemma_find_class_is_class_letter(s: Seq<char>)
    ensures
        find_class(s) matches Some(c) ==> is_class_letter(c),
    decreases s.len(),
{
    if s.len() > 0 && !is_class_letter(s[0]) {
        lemma_find_class_is_class_letter(s.drop_first());
    }
}

proof fn lemma_table_entries_are_districts(k: int)
    requires
        0 <= k < DISTRICT_COUNT,
    ensures
        is_district(district(k)),
        is_district(district(1)),
        is_district(district(28)),
        is_district(district(63)),
{
    assert(district(k) == district(k));
    assert(district(1) == district(1));
    assert(district(28) == district(28));
    assert(district(63) == district(63));
}

proof fn lemma_canonical_is_district(d: Seq<char>)
    requires
        is_district(d),
    ensures
        is_district(canonical_district(d)),
        canonical_district(canonical_district(d)) == canonical_district(d),
{
    let k = choose|k: int| 0 <= k < DISTRICT_COUNT && #[trigger] district(k) == d;
    lemma_table_entries_are_districts(k);
    assert(district(63).len() != district(2).len());
    assert(district(63).len() != district(1).len());
    assert(district(63)[7] != district(64)[7]);
    assert(district(63).len() != district(27).len());
    assert(district(28).len() != district(2).len());
    assert(district(28).len() != district(1).len());
    assert(district(28).len() != district(64).len());
    assert(district(28).len() != district(27).len());
}

proof fn lemma_first_near_in_table(input: Seq<char>, k: int)
    requires
        0 <= k,
    ensures
        first_near_district(input, k) matches Some(j) ==> 0 <= j < DISTRICT_COUNT,
    decreases DISTRICT_COUNT - k,
{
    if k < DISTRICT_COUNT && lev(input, district(k)) > 1 {
        lemma_first_near_in_table(input, k + 1);
    }
}

/// A corrected district is a table entry in its reported spelling, and
/// correcting it again gives it back unchanged.
pub proof fn law_corrected_district_is_stable(input: Seq<char>)
    ensures
        corrected_district(input) matches Some(d) ==> {
            &&& is_district(d)
            &&& canonical_district(d) == d
            &&& corrected_district(d) == Some(d)
        },
{
    if is_district(input) {
        lemma_canonical_is_district(input);
        let d = canonical_district(input);
        lemma_canonical_is_district(d);
    } else {
        lemma_first_near_in_table(input, 0);
        if let Some(k) = first_near_district(input, 0) {
            lemma_table_entries_are_districts(k);
            lemma_canonical_is_district(district(k));
            lemma_canonical_is_district(canonical_district(district(k)));
        }
    }
}

proof fn lemma_after_district_parts(dist: Option<Seq<char>>, rest: Seq<char>)
    ensures
        after_district(dist, rest).0 == dist,
        after_district(dist, rest).2 matches Some(c) ==> is_class_letter(c),
{
    lemma_find_class_is_class_letter(rest);
    lemma_find_class_is_class_letter(rest.skip(METRO_CUT as int));
}

proof fn lemma_first_prefix_in_table(tok: Seq<char>, k: int)
    requires
        0 <= k,
    ensures
        first_prefix_district(tok, k) matches Some(j) ==> 0 <= j < DISTRICT_COUNT,
    decreases DISTRICT_COUNT - k,
{
    if k < DISTRICT_COUNT && !district(k).is_prefix_of(tok) {
        lemma_first_prefix_in_table(tok, k + 1);
    }
}

proof fn lemma_fuzzy_parts_sound(tok: Seq<char>, k: int)
    requires
        0 <= k,
    ensures
        fuzzy_token_parts(tok, k) matches Some((d, m, c)) ==> (d matches Some(x) ==> is_district(x)) && (
        c matches Some(y) ==> is_class_letter(y)),
    decreases DISTRICT_COUNT - k,
{
    if k < DISTRICT_COUNT {
        if utf8_len(district(k)) <= utf8_len(tok) {
            match byte_prefix_chars(tok, utf8_len(district(k)) as int) {
                None => {},
                Some(i) => {
                    if lev(tok.take(i), district(k)) <= 1 {
                        law_corrected_district_is_stable(tok.take(i));
                        lemma_after_district_parts(corrected_district(tok.take(i)), tok.skip(i));
                    } else {
                        lemma_fuzzy_parts_sound(tok, k + 1);
                    }
                },
            }
        } else {
            lemma_fuzzy_parts_sound(tok, k + 1);
        }
    }
}

proof fn lemma_line_parts_sound(toks: Seq<Seq<char>>)
    ensures
        line_parts(toks) matches Some((d, m, c)) ==> (d matches Some(x) ==> is_district(x)) && (
        c matches Some(y) ==> is_class_letter(y)),
{
    if toks.len() == 3 {
        law_corrected_district_is_stable(toks[0]);
        lemma_find_class_is_class_letter(toks[2]);
    } else if toks.len() == 2 {
        let t0 = toks[0];
        let t1 = toks[1];
        law_corrected_district_is_stable(t0);
        law_corrected_district_is_stable(t0.take(t0.len() - METRO_CUT));
        lemma_find_class_is_class_letter(t1);
        lemma_find_class_is_class_letter(t1.skip(METRO_CUT as int));
    } else if toks.len() == 1 {
        let tok = toks[0];
        lemma_first_prefix_in_table(tok, 0);
        match first_prefix_district(tok, 0) {
            Some(k) => {
                lemma_table_entries_are_districts(k);
                lemma_after_district_parts(
                    Some(chattogram_canonical(district(k))),
                    tok.skip(district(k).len() as int),
                );
            },
            None => {
                lemma_fuzzy_parts_sound(tok, 0);
            },
        }
    }
}

proof fn lemma_top_scan_sound(lines: Seq<Seq<char>>, skip: int, i: int)
    ensures
        top_scan(lines, skip, i) matches Some(Some((d, m, c))) ==> is_district(d) && is_class_letter(c),
    decreases lines.len() - i,
{
    if 0 <= i < lines.len() {
        if i == skip {
            lemma_top_scan_sound(lines, skip, i + 1);
        } else {
            lemma_line_parts_sound(words(top_line_chars(lines[i])));
            lemma_top_scan_sound(lines, skip, i + 1);
        }
    }
}

/// A plate read from a text names a district of the table and a class letter,
/// reports its top line as district, metro word if present and class letter,
/// keeps the recognised text, and prints its number as its bottom line.
pub proof fn law_read_plate_is_well_formed(raw: Seq<char>)
    ensures
        plate_outcome(raw) matches Some(Ok(p)) ==> {
            &&& is_district(p.district)
            &&& is_class_letter(p.class_letter)
            &&& p.top_line == top_line_text(p.district, p.metro, p.class_letter)
            &&& p.raw_text == raw
            &&& p.bottom_line == p.plate_number
        },
{
    let lines = plate_lines(raw);
    if let Some((i, head, tail)) = first_bottom(lines, 0) {
        lemma_top_scan_sound(lines, i, 0);
    }
}

} // verus!

