//! Character-level text utilities with exact specifications over `Seq<char>`.
use vstd::prelude::*;

verus! {

/// Unicode `White_Space` property, the set that `char::is_whitespace` tests.
pub open spec fn is_ws(c: char) -> bool {
    ||| ('\u{9}' <= c && c <= '\u{d}')
    ||| c == ' '
    ||| c == '\u{85}'
    ||| c == '\u{a0}'
    ||| c == '\u{1680}'
    ||| ('\u{2000}' <= c && c <= '\u{200a}')
    ||| c == '\u{2028}'
    ||| c == '\u{2029}'
    ||| c == '\u{202f}'
    ||| c == '\u{205f}'
    ||| c == '\u{3000}'
}

/// A Bengali digit, `'০'` to `'৯'`.
pub open spec fn is_bengali_digit(c: char) -> bool {
    '\u{9e6}' <= c && c <= '\u{9ef}'
}

/// An ASCII digit, `'0'` to `'9'`.
pub open spec fn is_ascii_digit(c: char) -> bool {
    '0' <= c && c <= '9'
}

/// Whether `c` is whitespace: a character of the Unicode `White_Space`
/// property, the set that `char::is_whitespace` tests.
pub(crate) fn is_whitespace(c: char) -> (b: bool)
    ensures
        b == is_ws(c),
{
    ('\u{9}' <= c && c <= '\u{d}') || c == ' ' || c == '\u{85}' || c == '\u{a0}' || c == '\u{1680}' || (
    '\u{2000}' <= c && c <= '\u{200a}') || c == '\u{2028}' || c == '\u{2029}' || c == '\u{202f}' || c
        == '\u{205f}' || c == '\u{3000}'
}

/// The characters of `s`, in order.
pub fn chars_of(s: &str) -> (v: Vec<char>)
    ensures
        v@ == s@,
{
    let mut v: Vec<char> = Vec::new();
    let n = s.unicode_len();
    let mut i: usize = 0;
    while i < n
        invariant
            n == s@.len(),
            i <= n,
            v@ == s@.take(i as int),
        decreases n - i,
    {
        let c = s.get_char(i);
        v.push(c);
        i = i + 1;
        assert(v@ == s@.take(i as int));
    }
    assert(s@.take(n as int) == s@);
    v
}

pub assume_specification[ String::push ](s: &mut String, ch: char)
    ensures
        final(s)@ == old(s)@.push(ch),
;

/// A `String` holding exactly the characters of `v`.
pub fn string_of(v: &Vec<char>) -> (s: String)
    ensures
        s@ == v@,
{
    let mut s = String::new();
    let mut i: usize = 0;
    while i < v.len()
        invariant
            i <= v.len(),
            s@ == v@.take(i as int),
        decreases v.len() - i,
    {
        s.push(v[i]);
        i = i + 1;
        assert(s@ == v@.take(i as int));
    }
    assert(v@.take(v.len() as int) == v@);
    s
}


/// The pieces of `s` between `'\n'` separators (a text without separators is one piece).
pub open spec fn newline_pieces(s: Seq<char>) -> Seq<Seq<char>>
    decreases s.len(),
{
    if s.len() == 0 {
        seq![Seq::<char>::empty()]
    } else {
        let p = newline_pieces(s.drop_last());
        if s.last() == '\n' {
            p.push(Seq::<char>::empty())
        } else {
            p.update(p.len() - 1, p.last().push(s.last()))
        }
    }
}

/// The lines of `s` as `str::lines` yields them before trimming: the newline
/// pieces, with no line for an empty text and none after a final `'\n'`.
pub open spec fn text_lines(s: Seq<char>) -> Seq<Seq<char>> {
    if s.len() == 0 {
        Seq::empty()
    } else if s.last() == '\n' {
        newline_pieces(s).drop_last()
    } else {
        newline_pieces(s)
    }
}

/// `s` without its leading whitespace.
pub open spec fn trim_start(s: Seq<char>) -> Seq<char>
    decreases s.len(),
{
    if s.len() > 0 && is_ws(s[0]) {
        trim_start(s.drop_first())
    } else {
        s
    }
}

/// `s` without its trailing whitespace.
pub open spec fn trim_end(s: Seq<char>) -> Seq<char>
    decreases s.len(),
{
    if s.len() > 0 && is_ws(s.last()) {
        trim_end(s.drop_last())
    } else {
        s
    }
}

/// `s` without leading and trailing whitespace, as `str::trim` returns it.
pub open spec fn trim(s: Seq<char>) -> Seq<char> {
    trim_end(trim_start(s))
}

/// The trimmed lines of `s`.
pub open spec fn trimmed_lines(s: Seq<char>) -> Seq<Seq<char>> {
    text_lines(s).map_values(|l: Seq<char>| trim(l))
}

proof fn lemma_pieces_extend(x: Seq<char>, y: Seq<char>)
    requires
        forall|i: int| 0 <= i < y.len() ==> #[trigger] y[i] != '\n',
    ensures
        newline_pieces(x + y) == newline_pieces(x).update(
            newline_pieces(x).len() - 1,
            newline_pieces(x).last() + y,
        ),
        newline_pieces(x).len() > 0,
    decreases y.len(),
{
    lemma_pieces_nonempty(x);
    if y.len() == 0 {
        assert(x + y =~= x);
        assert(newline_pieces(x).last() + y =~= newline_pieces(x).last());
        assert(newline_pieces(x).update(newline_pieces(x).len() - 1, newline_pieces(x).last())
            =~= newline_pieces(x));
    } else {
        let yi = y.drop_last();
        assert forall|i: int| 0 <= i < yi.len() implies #[trigger] yi[i] != '\n' by {
            assert(yi[i] == y[i]);
        }
        lemma_pieces_extend(x, yi);
        assert((x + y).drop_last() =~= x + yi);
        assert((x + y).last() == y.last());
        let p = newline_pieces(x);
        let q = newline_pieces(x + yi);
        lemma_pieces_nonempty(x + yi);
        assert(q.len() == p.len());
        assert(q.last() == p.last() + yi);
        assert((p.last() + yi).push(y.last()) =~= p.last() + y);
        assert(q.update(q.len() - 1, q.last().push(y.last())) =~= p.update(p.len() - 1, p.last() + y));
    }
}

proof fn lemma_pieces_nonempty(s: Seq<char>)
    ensures
        newline_pieces(s).len() > 0,
    decreases s.len(),
{
    if s.len() > 0 {
        lemma_pieces_nonempty(s.drop_last());
    }
}

/// A text of two lines, `x` and a non-empty `y`, without further line breaks
/// has exactly those two lines.
pub(crate) proof fn lemma_two_lines(x: Seq<char>, y: Seq<char>)
    requires
        y.len() > 0,
        forall|i: int| 0 <= i < x.len() ==> #[trigger] x[i] != '\n',
        forall|i: int| 0 <= i < y.len() ==> #[trigger] y[i] != '\n',
    ensures
        text_lines(x + seq!['\n'] + y) == seq![x, y],
{
    lemma_pieces_extend(Seq::empty(), x);
    assert(Seq::<char>::empty() + x =~= x);
    assert(seq![Seq::<char>::empty()].update(0, Seq::<char>::empty() + x) =~= seq![x]);
    let xn = x.push('\n');
    assert(xn.drop_last() =~= x);
    assert(newline_pieces(xn) =~= seq![x, Seq::<char>::empty()]);
    lemma_pieces_extend(xn, y);
    assert(x + seq!['\n'] + y =~= xn + y);
    assert(seq![x, Seq::<char>::empty()].update(1, Seq::<char>::empty() + y) =~= seq![x, y]);
    assert((xn + y).last() == y.last());
}

/// The views of a sequence of character vectors.
pub open spec fn view_all(v: Seq<Vec<char>>) -> Seq<Seq<char>> {
    v.map_values(|x: Vec<char>| x@)
}

proof fn lemma_view_all_push(v: Seq<Vec<char>>, x: Vec<char>)
    ensures
        view_all(v.push(x)) == view_all(v).push(x@),
{
    assert(view_all(v.push(x)) =~= view_all(v).push(x@));
}

proof fn lemma_trim_all_push(raw: Seq<Seq<char>>, x: Seq<char>)
    ensures
        raw.push(x).map_values(|l: Seq<char>| trim(l)) == raw.map_values(|l: Seq<char>| trim(l)).push(trim(x)),
{
    assert(raw.push(x).map_values(|l: Seq<char>| trim(l)) =~= raw.map_values(|l: Seq<char>| trim(l)).push(trim(x)));
}

/// The maximal runs of non-whitespace characters of `s`, as `str::split_whitespace` yields them.
pub open spec fn words(s: Seq<char>) -> Seq<Seq<char>>
    decreases s.len(),
{
    if s.len() == 0 {
        Seq::empty()
    } else {
        let w = words(s.drop_last());
        let c = s.last();
        if is_ws(c) {
            w
        } else if s.len() > 1 && !is_ws(s[s.len() - 2]) {
            w.update(w.len() - 1, w.last().push(c))
        } else {
            w.push(seq![c])
        }
    }
}

proof fn lemma_trim_start_step(s: Seq<char>, i: int)
    requires
        0 <= i < s.len(),
        is_ws(s[i]),
    ensures
        trim_start(s.subrange(i, s.len() as int)) == trim_start(s.subrange(i + 1, s.len() as int)),
{
    assert(s.subrange(i, s.len() as int).drop_first() =~= s.subrange(i + 1, s.len() as int));
}

/// `s` without leading and trailing whitespace.
pub fn trim_chars(s: &[char]) -> (r: Vec<char>)
    ensures
        r@ == trim(s@),
{
    let n = s.len();
    let mut i: usize = 0;
    assert(s@.subrange(0, n as int) =~= s@);
    while i < n && is_whitespace(s[i])
        invariant
            n == s@.len(),
            i <= n,
            trim_start(s@) == trim_start(s@.subrange(i as int, n as int)),
        decreases n - i,
    {
        proof {
            lemma_trim_start_step(s@, i as int);
        }
        i = i + 1;
    }
    assert(s@.subrange(0, n as int) =~= s@);
    let ghost rest = s@.subrange(i as int, n as int);
    assert(trim_start(s@) == rest);
    let mut j: usize = n;
    while j > i && is_whitespace(s[j - 1])
        invariant
            n == s@.len(),
            i <= j <= n,
            rest == s@.subrange(i as int, n as int),
            trim_end(rest) == trim_end(s@.subrange(i as int, j as int)),
        decreases j,
    {
        proof {
            let t = s@.subrange(i as int, j as int);
            assert(t.drop_last() =~= s@.subrange(i as int, j - 1));
        }
        j = j - 1;
    }
    let mut r: Vec<char> = Vec::new();
    let mut k: usize = i;
    while k < j
        invariant
            i <= k <= j <= n,
            n == s@.len(),
            r@ == s@.subrange(i as int, k as int),
        decreases j - k,
    {
        r.push(s[k]);
        k = k + 1;
        assert(r@ =~= s@.subrange(i as int, k as int));
    }
    r
}

/// The trimmed lines of `s`.
pub fn lines_trimmed(s: &[char]) -> (v: Vec<Vec<char>>)
    ensures
        view_all(v@) == trimmed_lines(s@),
{
    let n = s.len();
    let mut done: Vec<Vec<char>> = Vec::new();
    let ghost mut raw: Seq<Seq<char>> = Seq::empty();
    let mut cur: Vec<char> = Vec::new();
    let mut i: usize = 0;
    while i < n
        invariant
            n == s@.len(),
            i <= n,
            newline_pieces(s@.take(i as int)) == raw.push(cur@),
            view_all(done@) == raw.map_values(|l: Seq<char>| trim(l)),
        decreases n - i,
    {
        let c = s[i];
        assert(s@.take(i + 1).drop_last() =~= s@.take(i as int));
        if c == '\n' {
            let t = trim_chars(cur.as_slice());
            proof {
                lemma_view_all_push(done@, t);
                lemma_trim_all_push(raw, cur@);
                raw = raw.push(cur@);
            }
            done.push(t);
            cur = Vec::new();
        } else {
            cur.push(c);
        }
        i = i + 1;
    }
    assert(s@.take(n as int) =~= s@);
    if n > 0 && s[n - 1] != '\n' {
        let t = trim_chars(cur.as_slice());
        proof {
            lemma_view_all_push(done@, t);
            lemma_trim_all_push(raw, cur@);
            raw = raw.push(cur@);
        }
        done.push(t);
        assert(text_lines(s@) == raw);
    } else if n > 0 {
        assert(text_lines(s@) =~= raw);
    } else {
        assert(text_lines(s@) =~= raw);
    }
    done
}

/// The maximal runs of non-whitespace characters of `s`.
pub fn split_words(s: &[char]) -> (v: Vec<Vec<char>>)
    ensures
        view_all(v@) == words(s@),
{
    let n = s.len();
    let mut done: Vec<Vec<char>> = Vec::new();
    let mut cur: Vec<char> = Vec::new();
    let mut i: usize = 0;
    while i < n
        invariant
            n == s@.len(),
            i <= n,
            cur@.len() > 0 <==> (i > 0 && !is_ws(s@[i - 1])),
            words(s@.take(i as int)) == (if cur@.len() > 0 {
                view_all(done@).push(cur@)
            } else {
                view_all(done@)
            }),
        decreases n - i,
    {
        let c = s[i];
        assert(s@.take(i + 1).drop_last() =~= s@.take(i as int));
        let ghost prev = words(s@.take(i as int));
        let ghost next = s@.take(i + 1);
        assert(next.last() == c);
        assert(i > 0 ==> next[next.len() - 2] == s@[i - 1]);
        assert(words(next) == if is_ws(c) {
            prev
        } else if next.len() > 1 && !is_ws(next[next.len() - 2]) {
            prev.update(prev.len() - 1, prev.last().push(c))
        } else {
            prev.push(seq![c])
        });
        if is_whitespace(c) {
            if cur.len() > 0 {
                let w = cur;
                proof {
                    lemma_view_all_push(done@, w);
                }
                done.push(w);
                cur = Vec::new();
            }
        } else {
            if cur.len() > 0 {
                assert(prev == view_all(done@).push(cur@));
                assert(prev.update(prev.len() - 1, prev.last().push(c)) =~= view_all(done@).push(cur@.push(c)));
            } else {
                assert(prev == view_all(done@));
                assert(cur@.push(c) =~= seq![c]);
            }
            cur.push(c);
        }
        i = i + 1;
        assert(words(s@.take(i as int)) =~= (if cur@.len() > 0 {
            view_all(done@).push(cur@)
        } else {
            view_all(done@)
        }));
    }
    assert(s@.take(n as int) =~= s@);
    if cur.len() > 0 {
        done.push(cur);
    }
    done
}


/// A text without whitespace is a single word.
pub(crate) proof fn lemma_words_single(w: Seq<char>)
    requires
        w.len() > 0,
        forall|i: int| 0 <= i < w.len() ==> !is_ws(#[trigger] w[i]),
    ensures
        words(w) == seq![w],
    decreases w.len(),
{
    let init = w.drop_last();
    if init.len() > 0 {
        assert forall|i: int| 0 <= i < init.len() implies !is_ws(#[trigger] init[i]) by {
            assert(init[i] == w[i]);
        }
        lemma_words_single(init);
        assert(w[w.len() - 2] == init.last());
        assert(init.push(w.last()) =~= w);
        assert(seq![init].update(0, init.push(w.last())) =~= seq![w]);
    } else {
        assert(words(init) =~= Seq::<Seq<char>>::empty());
        assert(seq![w.last()] =~= w);
        assert(Seq::<Seq<char>>::empty().push(seq![w.last()]) =~= seq![w]);
    }
}

proof fn lemma_words_nonempty(s: Seq<char>)
    requires
        s.len() > 0,
        !is_ws(s.last()),
    ensures
        words(s).len() > 0,
    decreases s.len(),
{
    if s.len() > 1 && !is_ws(s[s.len() - 2]) {
        assert(s.drop_last().last() == s[s.len() - 2]);
        lemma_words_nonempty(s.drop_last());
    }
}

/// The words of two texts joined by a space are the words of each, in turn.
pub(crate) proof fn lemma_words_space(x: Seq<char>, y: Seq<char>)
    ensures
        words(x.push(' ') + y) == words(x) + words(y),
    decreases y.len(),
{
    let s = x.push(' ') + y;
    if y.len() == 0 {
        assert(s =~= x.push(' '));
        assert(s.drop_last() =~= x);
        assert(words(y) =~= Seq::<Seq<char>>::empty());
        assert(words(x) + words(y) =~= words(x));
    } else {
        let yi = y.drop_last();
        let c = y.last();
        lemma_words_space(x, yi);
        assert(s.drop_last() =~= x.push(' ') + yi);
        assert(s.last() == c);
        let a = words(x);
        let b = words(yi);
        if is_ws(c) {
        } else if yi.len() > 0 && !is_ws(yi.last()) {
            assert(s[s.len() - 2] == yi.last());
            assert(y[y.len() - 2] == yi.last());
            lemma_words_nonempty(yi);
            assert((a + b).update((a + b).len() - 1, (a + b).last().push(c)) =~= a + b.update(
                b.len() - 1,
                b.last().push(c),
            ));
        } else {
            if yi.len() > 0 {
                assert(s[s.len() - 2] == yi.last());
                assert(y[y.len() - 2] == yi.last());
            } else {
                assert(s[s.len() - 2] == ' ');
            }
            assert((a + b).push(seq![c]) =~= a + b.push(seq![c]));
        }
    }
}

/// What `char::is_alphabetic` answers: whether `c` has the Unicode `Alphabetic` property.
pub uninterp spec fn char_is_alphabetic(c: char) -> bool;

/// Whether `c` is alphabetic as `char::is_alphabetic` answers: among ASCII
/// characters exactly the letters `A`–`Z` and `a`–`z`, otherwise the named
/// `char_is_alphabetic`.
pub open spec fn alphabetic(c: char) -> bool {
    if (c as u32) < 128 {
        ('A' <= c && c <= 'Z') || ('a' <= c && c <= 'z')
    } else {
        char_is_alphabetic(c)
    }
}

/// `char::is_alphabetic`; its answer is the named `char_is_alphabetic`. Among
/// ASCII characters the Unicode `Alphabetic` property holds exactly for the
/// letters `A`–`Z` and `a`–`z`; of other characters nothing more is stated.
#[verifier::external_body]
pub(crate) fn is_alphabetic(c: char) -> (b: bool)
    ensures
        b == char_is_alphabetic(c),
        (c as u32) < 128 ==> (b <==> (('A' <= c && c <= 'Z') || ('a' <= c && c <= 'z'))),
{
    c.is_alphabetic()
}

/// `p` begins `s`.
pub fn starts_with(s: &[char], p: &[char]) -> (r: bool)
    ensures
        r == p@.is_prefix_of(s@),
{
    if p.len() > s.len() {
        return false;
    }
    let mut i: usize = 0;
    while i < p.len()
        invariant
            p@.len() <= s@.len(),
            i <= p@.len(),
            forall|j: int| 0 <= j < i ==> p@[j] == s@[j],
        decreases p@.len() - i,
    {
        if p[i] != s[i] {
            assert(p@[i as int] != s@.subrange(0, p@.len() as int)[i as int]);
            return false;
        }
        i = i + 1;
    }
    assert(p@ =~= s@.subrange(0, p@.len() as int));
    true
}

/// `p` ends `s`.
pub fn ends_with(s: &[char], p: &[char]) -> (r: bool)
    ensures
        r == p@.is_suffix_of(s@),
{
    if p.len() > s.len() {
        return false;
    }
    let off = s.len() - p.len();
    let mut i: usize = 0;
    while i < p.len()
        invariant
            p@.len() <= s@.len(),
            off == s@.len() - p@.len(),
            s@.len() == s.len(),
            i <= p@.len(),
            forall|j: int| 0 <= j < i ==> p@[j] == s@[off + j],
        decreases p@.len() - i,
    {
        if p[i] != s[off + i] {
            assert(p@[i as int] != s@.subrange(off as int, s@.len() as int)[i as int]);
            return false;
        }
        i = i + 1;
    }
    assert(p@ =~= s@.subrange(off as int, s@.len() as int));
    true
}

/// A copy of `s[from..to]`.
pub fn slice_chars(s: &[char], from: usize, to: usize) -> (r: Vec<char>)
    requires
        from <= to <= s@.len(),
    ensures
        r@ == s@.subrange(from as int, to as int),
{
    let mut r: Vec<char> = Vec::new();
    let mut k: usize = from;
    while k < to
        invariant
            from <= k <= to <= s@.len(),
            r@ == s@.subrange(from as int, k as int),
        decreases to - k,
    {
        r.push(s[k]);
        k = k + 1;
        assert(r@ =~= s@.subrange(from as int, k as int));
    }
    r
}

/// The number of bytes of the UTF-8 encoding of `c`.
pub open spec fn utf8_width(c: char) -> nat {
    if (c as u32) < 0x80 {
        1
    } else if (c as u32) < 0x800 {
        2
    } else if (c as u32) < 0x10000 {
        3
    } else {
        4
    }
}

/// The number of bytes of the UTF-8 encoding of `s`, what `str::len` returns.
pub open spec fn utf8_len(s: Seq<char>) -> nat
    decreases s.len(),
{
    if s.len() == 0 {
        0
    } else {
        utf8_len(s.drop_last()) + utf8_width(s.last())
    }
}

/// The number of characters of `s` whose encoding is exactly the first `t`
/// bytes of `s`'s encoding; `None` when byte `t` is no character boundary.
pub open spec fn byte_prefix_chars(s: Seq<char>, t: int) -> Option<int> {
    if exists|i: int| 0 <= i <= s.len() && #[trigger] utf8_len(s.take(i)) == t {
        Some(choose|i: int| 0 <= i <= s.len() && #[trigger] utf8_len(s.take(i)) == t)
    } else {
        None
    }
}

proof fn lemma_utf8_len_take_step(s: Seq<char>, i: int)
    requires
        0 <= i < s.len(),
    ensures
        utf8_len(s.take(i + 1)) == utf8_len(s.take(i)) + utf8_width(s[i]),
{
    assert(s.take(i + 1).drop_last() =~= s.take(i));
}

proof fn lemma_utf8_len_take_strict(s: Seq<char>, i: int, j: int)
    requires
        0 <= i < j <= s.len(),
    ensures
        utf8_len(s.take(i)) < utf8_len(s.take(j)),
    decreases j - i,
{
    lemma_utf8_len_take_step(s, j - 1);
    if i < j - 1 {
        lemma_utf8_len_take_strict(s, i, j - 1);
    }
}

fn char_width(c: char) -> (w: u128)
    ensures
        w == utf8_width(c),
{
    let u = c as u32;
    if u < 0x80 {
        1
    } else if u < 0x800 {
        2
    } else if u < 0x10000 {
        3
    } else {
        4
    }
}

/// The byte length of the UTF-8 encoding of `s`.
pub fn utf8_length(s: &[char]) -> (n: u128)
    ensures
        n == utf8_len(s@),
{
    let mut acc: u128 = 0;
    let mut i: usize = 0;
    while i < s.len()
        invariant
            i <= s@.len(),
            acc == utf8_len(s@.take(i as int)),
            acc <= 4 * i,
        decreases s@.len() - i,
    {
        proof {
            lemma_utf8_len_take_step(s@, i as int);
        }
        acc = acc + char_width(s[i]);
        i = i + 1;
    }
    assert(s@.take(s@.len() as int) =~= s@);
    acc
}

/// The number of characters that make up the first `t` bytes of `s`, if byte
/// `t` is a character boundary.
pub fn chars_in_byte_prefix(s: &[char], t: u128) -> (r: Option<usize>)
    ensures
        match r {
            Some(i) => byte_prefix_chars(s@, t as int) == Some(i as int),
            None => byte_prefix_chars(s@, t as int) is None,
        },
{
    let mut acc: u128 = 0;
    let mut i: usize = 0;
    while i < s.len() && acc < t
        invariant
            i <= s@.len(),
            acc == utf8_len(s@.take(i as int)),
            acc <= 4 * i,
            i > 0 ==> utf8_len(s@.take(i - 1)) < t,
        decreases s@.len() - i,
    {
        proof {
            lemma_utf8_len_take_step(s@, i as int);
        }
        acc = acc + char_width(s[i]);
        i = i + 1;
    }
    if acc == t {
        proof {
            let j = choose|j: int| 0 <= j <= s@.len() && #[trigger] utf8_len(s@.take(j)) == t;
            if j < i {
                lemma_utf8_len_take_strict(s@, j, i as int);
            } else if j > i {
                lemma_utf8_len_take_strict(s@, i as int, j);
            }
        }
        Some(i)
    } else {
        proof {
            assert forall|j: int| 0 <= j <= s@.len() implies #[trigger] utf8_len(s@.take(j)) != t by {
                if j < i {
                    if j < i - 1 {
                        lemma_utf8_len_take_strict(s@, j, i - 1);
                    }
                } else if j > i {
                    lemma_utf8_len_take_strict(s@, i as int, j);
                }
            }
        }
        None
    }
}


/// `a` and `b` hold the same characters.
pub fn same_chars(a: &[char], b: &[char]) -> (r: bool)
    ensures
        r == (a@ == b@),
{
    if a.len() != b.len() {
        return false;
    }
    let mut i: usize = 0;
    while i < a.len()
        invariant
            a@.len() == b@.len(),
            i <= a@.len(),
            forall|j: int| 0 <= j < i ==> a@[j] == b@[j],
        decreases a@.len() - i,
    {
        if a[i] != b[i] {
            return false;
        }
        i = i + 1;
    }
    assert(a@ =~= b@);
    true
}

/// `a` and `b` hold the same text.
pub fn str_eq(a: &str, b: &str) -> (r: bool)
    ensures
        r == (a@ == b@),
{
    let x = chars_of(a);
    let y = chars_of(b);
    same_chars(x.as_slice(), y.as_slice())
}

/// `p` begins the text `s`.
pub fn str_starts_with(s: &str, p: &str) -> (r: bool)
    ensures
        r == p@.is_prefix_of(s@),
{
    let x = chars_of(s);
    let y = chars_of(p);
    starts_with(x.as_slice(), y.as_slice())
}

/// What `str::to_lowercase` returns for `s`: its lowercase form under the
/// Unicode case mapping.
pub uninterp spec fn str_lowercase(s: Seq<char>) -> Seq<char>;

/// A text of ASCII characters only.
pub open spec fn is_ascii_text(s: Seq<char>) -> bool {
    forall|i: int| 0 <= i < s.len() ==> (#[trigger] s[i] as u32) < 128
}

/// The ASCII lowercase of `c`: `'A'` to `'Z'` become `'a'` to `'z'`, any other
/// character is kept.
pub open spec fn ascii_lower_char(c: char) -> char {
    if 'A' <= c && c <= 'Z' {
        ((c as u32) + 32) as char
    } else {
        c
    }
}

/// `s` with its ASCII capitals made lowercase.
pub open spec fn ascii_lower(s: Seq<char>) -> Seq<char> {
    s.map_values(|c: char| ascii_lower_char(c))
}

/// The lowercase form of `s` as `str::to_lowercase` gives it: for an ASCII
/// text its ASCII lowercase, otherwise the named `str_lowercase`.
pub open spec fn lowercase_of(s: Seq<char>) -> Seq<char> {
    if is_ascii_text(s) {
        ascii_lower(s)
    } else {
        str_lowercase(s)
    }
}

/// `str::to_lowercase`; its result is the named `str_lowercase`. On an ASCII
/// text the Unicode lowercase mapping is the ASCII one: `'A'` to `'Z'` become
/// `'a'` to `'z'` and every other character is kept. Of other texts nothing
/// more is stated.
#[verifier::external_body]
pub(crate) fn to_lowercase(s: &str) -> (r: String)
    ensures
        r@ == str_lowercase(s@),
        is_ascii_text(s@) ==> r@ == ascii_lower(s@),
{
    s.to_lowercase()
}

} // verus!
