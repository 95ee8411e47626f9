//! Levenshtein edit distance between character sequences.
use vstd::prelude::*;

verus! {

pub open spec fn min2(x: nat, y: nat) -> nat {
    if x <= y {
        x
    } else {
        y
    }
}

/// The least number of single-character insertions, deletions and
/// substitutions that turn `a` into `b`.
pub open spec fn lev(a: Seq<char>, b: Seq<char>) -> nat
    decreases a.len() + b.len(),
{
    if a.len() == 0 {
        b.len()
    } else if b.len() == 0 {
        a.len()
    } else if a.last() == b.last() {
        lev(a.drop_last(), b.drop_last())
    } else {
        1 + min2(lev(a.drop_last(), b.drop_last()), min2(lev(a.drop_last(), b), lev(a, b.drop_last())))
    }
}

pub open spec fn max2(x: nat, y: nat) -> nat {
    if x >= y {
        x
    } else {
        y
    }
}

/// The distance never exceeds the length of the longer sequence.
pub proof fn lemma_lev_upper_bound(a: Seq<char>, b: Seq<char>)
    ensures
        lev(a, b) <= max2(a.len(), b.len()),
    decreases a.len() + b.len(),
{
    if a.len() > 0 && b.len() > 0 {
        lemma_lev_upper_bound(a.drop_last(), b.drop_last());
    }
}

/// The distance is at least the difference of the lengths.
pub proof fn lemma_lev_lower_bound(a: Seq<char>, b: Seq<char>)
    ensures
        a.len() - b.len() <= lev(a, b),
        b.len() - a.len() <= lev(a, b),
    decreases a.len() + b.len(),
{
    if a.len() > 0 && b.len() > 0 {
        lemma_lev_lower_bound(a.drop_last(), b.drop_last());
        lemma_lev_lower_bound(a.drop_last(), b);
        lemma_lev_lower_bound(a, b.drop_last());
    }
}

/// A sequence is at distance zero from itself, and only from itself.
pub proof fn lemma_lev_zero_iff_equal(a: Seq<char>, b: Seq<char>)
    ensures
        lev(a, b) == 0 <==> a == b,
    decreases a.len() + b.len(),
{
    if a.len() > 0 && b.len() > 0 {
        lemma_lev_zero_iff_equal(a.drop_last(), b.drop_last());
        if a == b {
            assert(a.drop_last() == b.drop_last());
        }
        if lev(a, b) == 0 {
            assert(a.last() == b.last());
            assert(a =~= a.drop_last().push(a.last()));
            assert(b =~= b.drop_last().push(b.last()));
        }
    } else if a.len() == 0 && b.len() == 0 {
        assert(a =~= b);
    }
}

/// The distance does not depend on the order of its arguments.
pub proof fn lemma_lev_symmetric(a: Seq<char>, b: Seq<char>)
    ensures
        lev(a, b) == lev(b, a),
    decreases a.len() + b.len(),
{
    if a.len() > 0 && b.len() > 0 {
        lemma_lev_symmetric(a.drop_last(), b.drop_last());
        lemma_lev_symmetric(a.drop_last(), b);
        lemma_lev_symmetric(a, b.drop_last());
    }
}

/// Dropping the last character of either sequence changes the distance by at
/// most one, up or down.
pub proof fn lemma_lev_step(a: Seq<char>, c: Seq<char>)
    ensures
        a.len() > 0 ==> lev(a, c) <= lev(a.drop_last(), c) + 1 && lev(a.drop_last(), c) <= lev(a, c) + 1,
        c.len() > 0 ==> lev(a, c) <= lev(a, c.drop_last()) + 1 && lev(a, c.drop_last()) <= lev(a, c) + 1,
    decreases a.len() + c.len(),
{
    lemma_lev_lower_bound(a, c);
    if a.len() > 0 {
        lemma_lev_step(a.drop_last(), c);
        lemma_lev_lower_bound(a.drop_last(), c);
    }
    if c.len() > 0 {
        lemma_lev_step(a, c.drop_last());
        lemma_lev_lower_bound(a, c.drop_last());
    }
    if a.len() > 0 && c.len() > 0 {
        lemma_lev_step(a.drop_last(), c.drop_last());
    }
}

/// The distance satisfies the triangle inequality: going from `a` to `c`
/// never takes more edits than going through `b`.
pub proof fn law_lev_triangle(a: Seq<char>, b: Seq<char>, c: Seq<char>)
    ensures
        lev(a, c) <= lev(a, b) + lev(b, c),
    decreases a.len() + b.len() + c.len(),
{
    if b.len() == 0 {
        lemma_lev_upper_bound(a, c);
    } else if a.len() == 0 {
        lemma_lev_lower_bound(b, c);
    } else if c.len() == 0 {
        lemma_lev_lower_bound(a, b);
    } else {
        let a1 = a.drop_last();
        let b1 = b.drop_last();
        let c1 = c.drop_last();
        law_lev_triangle(a1, b, c);
        law_lev_triangle(a, b, c1);
        law_lev_triangle(a1, b1, c1);
        law_lev_triangle(a1, b1, c);
        law_lev_triangle(a, b1, c1);
        law_lev_triangle(a, b1, c);
        lemma_lev_step(a, c);
        lemma_lev_step(a, b);
        lemma_lev_step(b, c);
    }
}

/// The edit distance between `a` and `b`, computed row by row.
pub fn edit_distance(a: &[char], b: &[char]) -> (r: usize)
    ensures
        r == lev(a@, b@),
{
    let n = a.len();
    let m = b.len();
    let mut prev: Vec<usize> = Vec::new();
    prev.push(0);
    let mut j: usize = 0;
    while j < m
        invariant
            m == b@.len(),
            j <= m,
            prev@.len() == j + 1,
            forall|k: int| 0 <= k <= j ==> #[trigger] prev@[k] == k,
        decreases m - j,
    {
        prev.push(j + 1);
        j = j + 1;
    }
    assert forall|k: int| 0 <= k <= m implies #[trigger] prev@[k] == lev(a@.take(0), b@.take(k)) by {
        assert(a@.take(0).len() == 0);
    }
    let mut i: usize = 0;
    while i < n
        invariant
            n == a@.len(),
            m == b@.len(),
            i <= n,
            prev@.len() == m + 1,
            forall|k: int| 0 <= k <= m ==> #[trigger] prev@[k] == lev(a@.take(i as int), b@.take(k)),
        decreases n - i,
    {
        let ghost ai = a@.take(i as int);
        let ghost ai1 = a@.take(i + 1);
        assert(ai1.drop_last() =~= ai);
        assert(ai1.last() == a@[i as int]);
        let mut cur: Vec<usize> = Vec::new();
        cur.push(i + 1);
        assert(b@.take(0).len() == 0);
        let mut j: usize = 0;
        while j < m
            invariant
                n == a@.len(),
                m == b@.len(),
                i < n,
                ai == a@.take(i as int),
                ai1 == a@.take(i + 1),
                ai1.drop_last() == ai,
                ai1.last() == a@[i as int],
                ai1.len() == i + 1,
                j <= m,
                prev@.len() == m + 1,
                forall|k: int| 0 <= k <= m ==> #[trigger] prev@[k] == lev(ai, b@.take(k)),
                cur@.len() == j + 1,
                forall|k: int| 0 <= k <= j ==> #[trigger] cur@[k] == lev(ai1, b@.take(k)),
            decreases m - j,
        {
            let ghost bj = b@.take(j as int);
            let ghost bj1 = b@.take(j + 1);
            assert(bj1.drop_last() =~= bj);
            assert(bj1.last() == b@[j as int]);
            assert(prev@[j as int] == lev(ai, bj));
            assert(prev@[j + 1] == lev(ai, bj1));
            assert(cur@[j as int] == lev(ai1, bj));
            let v = if a[i] == b[j] {
                prev[j]
            } else {
                proof {
                    lemma_lev_upper_bound(ai, bj);
                }
                let d = prev[j];
                let u = prev[j + 1];
                let l = cur[j];
                let best = if d <= u {
                    if d <= l {
                        d
                    } else {
                        l
                    }
                } else {
                    if u <= l {
                        u
                    } else {
                        l
                    }
                };
                1 + best
            };
            assert(v == lev(ai1, bj1));
            cur.push(v);
            j = j + 1;
        }
        prev = cur;
        i = i + 1;
    }
    assert(a@.take(n as int) =~= a@);
    assert(b@.take(m as int) =~= b@);
    prev[m]
}

} // verus!
