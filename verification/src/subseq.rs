//! Subsequences and longest common subsequences of mathematical sequences.
use vstd::prelude::*;

verus! {

/// `p` lists, in increasing order, the positions of `x` at which the elements of `s` occur.
pub open spec fn embeds<V>(p: Seq<int>, s: Seq<V>, x: Seq<V>) -> bool {
    &&& p.len() == s.len()
    &&& forall|t: int| 0 <= t < p.len() ==> 0 <= #[trigger] p[t] < x.len() && x[p[t]] == s[t]
    &&& forall|t1: int, t2: int| 0 <= t1 < t2 < p.len() ==> #[trigger] p[t1] < #[trigger] p[t2]
}

/// `s` is obtained from `x` by removing elements.
pub open spec fn is_subseq<V>(s: Seq<V>, x: Seq<V>) -> bool {
    exists|p: Seq<int>| embeds(p, s, x)
}

/// `s` is a subsequence of both `x` and `y`.
pub open spec fn is_common_subseq<V>(s: Seq<V>, x: Seq<V>, y: Seq<V>) -> bool {
    is_subseq(s, x) && is_subseq(s, y)
}

/// Length of a longest common subsequence of `x` and `y`.
pub open spec fn lcs_len<V>(x: Seq<V>, y: Seq<V>) -> nat
    decreases x.len() + y.len(),
{
    if x.len() == 0 || y.len() == 0 {
        0
    } else if x.last() == y.last() {
        lcs_len(x.drop_last(), y.drop_last()) + 1
    } else {
        let up = lcs_len(x.drop_last(), y);
        let left = lcs_len(x, y.drop_last());
        if up >= left {
            up
        } else {
            left
        }
    }
}

/// The longest common subsequence found by walking back from the ends of `x` and `y`:
/// equal last elements are kept, otherwise the last element of `y` is dropped unless
/// dropping the last element of `x` keeps a strictly longer common subsequence.
pub open spec fn lcs_seq<V>(x: Seq<V>, y: Seq<V>) -> Seq<V>
    decreases x.len() + y.len(),
{
    if x.len() == 0 || y.len() == 0 {
        Seq::empty()
    } else if x.last() == y.last() {
        lcs_seq(x.drop_last(), y.drop_last()).push(x.last())
    } else if lcs_len(x, y.drop_last()) >= lcs_len(x.drop_last(), y) {
        lcs_seq(x, y.drop_last())
    } else {
        lcs_seq(x.drop_last(), y)
    }
}

/// Positions in `x` of the elements of `lcs_seq(x, y)`.
pub closed spec fn lcs_pos_x<V>(x: Seq<V>, y: Seq<V>) -> Seq<int>
    decreases x.len() + y.len(),
{
    if x.len() == 0 || y.len() == 0 {
        Seq::empty()
    } else if x.last() == y.last() {
        lcs_pos_x(x.drop_last(), y.drop_last()).push(x.len() - 1)
    } else if lcs_len(x, y.drop_last()) >= lcs_len(x.drop_last(), y) {
        lcs_pos_x(x, y.drop_last())
    } else {
        lcs_pos_x(x.drop_last(), y)
    }
}

/// Positions in `y` of the elements of `lcs_seq(x, y)`.
pub closed spec fn lcs_pos_y<V>(x: Seq<V>, y: Seq<V>) -> Seq<int>
    decreases x.len() + y.len(),
{
    if x.len() == 0 || y.len() == 0 {
        Seq::empty()
    } else if x.last() == y.last() {
        lcs_pos_y(x.drop_last(), y.drop_last()).push(y.len() - 1)
    } else if lcs_len(x, y.drop_last()) >= lcs_len(x.drop_last(), y) {
        lcs_pos_y(x, y.drop_last())
    } else {
        lcs_pos_y(x.drop_last(), y)
    }
}

/// An embedding into a prefix is an embedding into the whole sequence.
pub proof fn lemma_embeds_extend<V>(p: Seq<int>, s: Seq<V>, x: Seq<V>, n: int)
    requires
        0 <= n <= x.len(),
        embeds(p, s, x.take(n)),
    ensures
        embeds(p, s, x),
{
}

/// An embedding whose last position is before the last element of `x` embeds into `x.drop_last()`.
pub proof fn lemma_embeds_shrink<V>(p: Seq<int>, s: Seq<V>, x: Seq<V>)
    requires
        embeds(p, s, x),
        x.len() > 0,
        p.len() == 0 || p.last() < x.len() - 1,
    ensures
        embeds(p, s, x.drop_last()),
{
    assert forall|t: int| 0 <= t < p.len() implies 0 <= #[trigger] p[t] < x.drop_last().len()
        && x.drop_last()[p[t]] == s[t] by {
        if t < p.len() - 1 {
            assert(p[t] < p[p.len() - 1]);
        }
    }
}

/// Appending the last element of `x` to a subsequence of `x.drop_last()`.
pub proof fn lemma_embeds_push<V>(p: Seq<int>, s: Seq<V>, x: Seq<V>)
    requires
        x.len() > 0,
        embeds(p, s, x.drop_last()),
    ensures
        embeds(p.push(x.len() - 1), s.push(x.last()), x),
{
    let q = p.push(x.len() - 1);
    assert forall|t1: int, t2: int| 0 <= t1 < t2 < q.len() implies #[trigger] q[t1] < #[trigger] q[t2] by {
        if t2 < p.len() {
            assert(p[t1] < p[t2]);
        }
    }
}

/// Adding one element to either sequence never shrinks the longest common subsequence
/// and grows it by at most one.
pub proof fn lemma_lcs_adjacent<V>(x: Seq<V>, y: Seq<V>)
    ensures
        x.len() > 0 ==> lcs_len(x.drop_last(), y) <= lcs_len(x, y) <= lcs_len(x.drop_last(), y)
            + 1,
        y.len() > 0 ==> lcs_len(x, y.drop_last()) <= lcs_len(x, y) <= lcs_len(x, y.drop_last())
            + 1,
    decreases x.len() + y.len(),
{
    if x.len() > 0 && y.len() > 0 {
        let xs = x.drop_last();
        let ys = y.drop_last();
        lemma_lcs_adjacent(xs, y);
        lemma_lcs_adjacent(x, ys);
        if x.last() == y.last() {
        } else {
        }
    }
}

/// The longest common subsequence is at most as long as either sequence.
pub proof fn lemma_lcs_len_bound<V>(x: Seq<V>, y: Seq<V>)
    ensures
        lcs_len(x, y) <= x.len(),
        lcs_len(x, y) <= y.len(),
    decreases x.len() + y.len(),
{
    if x.len() > 0 && y.len() > 0 {
        lemma_lcs_len_bound(x.drop_last(), y.drop_last());
        lemma_lcs_len_bound(x.drop_last(), y);
        lemma_lcs_len_bound(x, y.drop_last());
    }
}

/// No common subsequence of `x` and `y` is longer than `lcs_len(x, y)`.
pub proof fn lemma_lcs_longest<V>(p: Seq<int>, q: Seq<int>, s: Seq<V>, x: Seq<V>, y: Seq<V>)
    requires
        embeds(p, s, x),
        embeds(q, s, y),
    ensures
        s.len() <= lcs_len(x, y),
    decreases x.len() + y.len(),
{
    if s.len() > 0 {
        let l = s.len() - 1;
        assert(0 <= p[l] < x.len());
        assert(0 <= q[l] < y.len());
        lemma_lcs_adjacent(x, y);
        if p[l] < x.len() - 1 {
            lemma_embeds_shrink(p, s, x);
            lemma_lcs_longest(p, q, s, x.drop_last(), y);
        } else if q[l] < y.len() - 1 {
            lemma_embeds_shrink(q, s, y);
            lemma_lcs_longest(p, q, s, x, y.drop_last());
        } else {
            let pd = p.drop_last();
            let qd = q.drop_last();
            let sd = s.drop_last();
            assert(embeds(pd, sd, x)) by {
                assert forall|t1: int, t2: int| 0 <= t1 < t2 < pd.len() implies #[trigger] pd[t1]
                    < #[trigger] pd[t2] by {
                    assert(p[t1] < p[t2]);
                }
            }
            assert(embeds(qd, sd, y)) by {
                assert forall|t1: int, t2: int| 0 <= t1 < t2 < qd.len() implies #[trigger] qd[t1]
                    < #[trigger] qd[t2] by {
                    assert(q[t1] < q[t2]);
                }
            }
            assert(pd.len() == 0 || pd.last() < x.len() - 1) by {
                if pd.len() > 0 {
                    assert(p[l - 1] < p[l]);
                }
            }
            assert(qd.len() == 0 || qd.last() < y.len() - 1) by {
                if qd.len() > 0 {
                    assert(q[l - 1] < q[l]);
                }
            }
            lemma_embeds_shrink(pd, sd, x);
            lemma_embeds_shrink(qd, sd, y);
            lemma_lcs_longest(pd, qd, sd, x.drop_last(), y.drop_last());
            assert(x.last() == s[l]);
            assert(y.last() == s[l]);
        }
    }
}

/// `lcs_seq(x, y)` is a common subsequence of `x` and `y` of length `lcs_len(x, y)`,
/// with `lcs_pos_x` and `lcs_pos_y` as its positions.
pub proof fn lemma_lcs_seq_embeds<V>(x: Seq<V>, y: Seq<V>)
    ensures
        lcs_seq(x, y).len() == lcs_len(x, y),
        embeds(lcs_pos_x(x, y), lcs_seq(x, y), x),
        embeds(lcs_pos_y(x, y), lcs_seq(x, y), y),
    decreases x.len() + y.len(),
{
    if x.len() > 0 && y.len() > 0 {
        let xs = x.drop_last();
        let ys = y.drop_last();
        if x.last() == y.last() {
            lemma_lcs_seq_embeds(xs, ys);
            lemma_embeds_push(lcs_pos_x(xs, ys), lcs_seq(xs, ys), x);
            lemma_embeds_push(lcs_pos_y(xs, ys), lcs_seq(xs, ys), y);
        } else if lcs_len(x, ys) >= lcs_len(xs, y) {
            lemma_lcs_seq_embeds(x, ys);
            lemma_embeds_extend(lcs_pos_y(x, ys), lcs_seq(x, ys), y, y.len() - 1);
        } else {
            lemma_lcs_seq_embeds(xs, y);
            lemma_embeds_extend(lcs_pos_x(xs, y), lcs_seq(xs, y), x, x.len() - 1);
        }
    }
}

/// Law: `lcs_len(x, y)`, the count the table of `get_dp_table` holds, is the length of a
/// longest common subsequence of `x` and `y`: some common subsequence has that length, and
/// every common subsequence is at most as long.
pub proof fn lemma_lcs_len_is_longest<V>(x: Seq<V>, y: Seq<V>)
    ensures
        exists|s: Seq<V>| #[trigger] is_common_subseq(s, x, y) && s.len() == lcs_len(x, y),
        forall|s: Seq<V>| #[trigger] is_common_subseq(s, x, y) ==> s.len() <= lcs_len(x, y),
{
    lemma_lcs_seq_embeds(x, y);
    assert(is_common_subseq(lcs_seq(x, y), x, y));
    assert forall|s: Seq<V>| #[trigger] is_common_subseq(s, x, y) implies s.len() <= lcs_seq(
        x,
        y,
    ).len() by {
        let p = choose|p: Seq<int>| embeds(p, s, x);
        let q = choose|q: Seq<int>| embeds(q, s, y);
        lemma_lcs_longest(p, q, s, x, y);
    }
}

} // verus!
