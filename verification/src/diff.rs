//! Differences between two token sequences, computed along a common subsequence that a walk
//! back through the table of longest common subsequences finds.
use vstd::prelude::*;
use crate::subseq::{lcs_len, lemma_lcs_len_bound};

verus! {

/// Elements that can be compared and copied by their view.
pub trait DiffItem: View + Sized {
    fn same(&self, other: &Self) -> (r: bool)
        ensures
            r == (self@ == other@),
    ;

    fn duplicate(&self) -> (r: Self)
        ensures
            r@ == self@,
    ;
}

impl DiffItem for char {
    fn same(&self, other: &Self) -> (r: bool) {
        *self == *other
    }

    fn duplicate(&self) -> (r: Self) {
        *self
    }
}

/// One step of an edit script from an old sequence to a new one.
#[derive(Debug, PartialEq, Eq)]
pub enum Diff<T> {
    /// Position in the new sequence, element to insert.
    Insert(usize, T),
    /// Position in the old sequence of the deleted element.
    Delete(usize),
    /// Position in the old sequence, updated element.
    Change(usize, T),
}


impl<T: View> View for Diff<T> {
    type V = Diff<T::V>;

    open spec fn view(&self) -> Diff<T::V> {
        match self {
            Diff::Insert(p, t) => Diff::Insert(*p, t@),
            Diff::Delete(p) => Diff::Delete(*p),
            Diff::Change(p, t) => Diff::Change(*p, t@),
        }
    }
}

/// The views of a sequence of differences.
pub open spec fn diff_views<T: View>(s: Seq<Diff<T>>) -> Seq<Diff<T::V>> {
    s.map_values(|d: Diff<T>| d@)
}

/// The edit script that walks `a` and `b` from the front along the common subsequence `l`;
/// `i` and `k` are the positions of `a[0]` and `b[0]` in the whole sequences.
/// Equal heads are kept (they are the next element of `l`). Otherwise a head that differs
/// from the next element of `l` is replaced: both heads at once as a change, else the head
/// of `b` as an insertion or the head of `a` as a deletion. Once one side is exhausted, the
/// rest of the other side is inserted or deleted.
pub open spec fn align<V>(a: Seq<V>, b: Seq<V>, l: Seq<V>, i: nat, k: nat) -> Seq<Diff<V>>
    decreases a.len() + b.len(),
{
    if a.len() > 0 && b.len() > 0 {
        if a[0] == b[0] {
            align(a.drop_first(), b.drop_first(), l.drop_first(), i + 1, k + 1)
        } else {
            let new_differs = l.len() > 0 && l[0] != b[0];
            let old_differs = l.len() > 0 && l[0] != a[0];
            if new_differs && old_differs {
                seq![Diff::Change(i as usize, b[0])] + align(
                    a.drop_first(),
                    b.drop_first(),
                    l,
                    i + 1,
                    k + 1,
                )
            } else if new_differs {
                seq![Diff::Insert(k as usize, b[0])] + align(a, b.drop_first(), l, i, k + 1)
            } else if old_differs {
                seq![Diff::Delete(i as usize)] + align(a.drop_first(), b, l, i + 1, k)
            } else {
                Seq::empty()
            }
        }
    } else if b.len() > 0 {
        seq![Diff::Insert(k as usize, b[0])] + align(a, b.drop_first(), l, i, k + 1)
    } else if a.len() > 0 {
        seq![Diff::Delete(i as usize)] + align(a.drop_first(), b, l, i + 1, k)
    } else {
        Seq::empty()
    }
}

/// Whether the walk of `align` over `a`, `b` and `l` comes to its end: it never meets equal
/// heads that are not the next element of `l`, and never stops with both sides left while no
/// head differs from the next element of `l` (which happens once `l` is used up).
pub open spec fn align_ok<V>(a: Seq<V>, b: Seq<V>, l: Seq<V>) -> bool
    decreases a.len() + b.len(),
{
    if a.len() > 0 && b.len() > 0 {
        if a[0] == b[0] {
            l.len() > 0 && l[0] == a[0] && align_ok(a.drop_first(), b.drop_first(), l.drop_first())
        } else {
            let new_differs = l.len() > 0 && l[0] != b[0];
            let old_differs = l.len() > 0 && l[0] != a[0];
            if new_differs && old_differs {
                align_ok(a.drop_first(), b.drop_first(), l)
            } else if new_differs {
                align_ok(a, b.drop_first(), l)
            } else if old_differs {
                align_ok(a.drop_first(), b, l)
            } else {
                false
            }
        }
    } else if b.len() > 0 {
        align_ok(a, b.drop_first(), l)
    } else if a.len() > 0 {
        align_ok(a.drop_first(), b, l)
    } else {
        true
    }
}

/// Whether `get_diffs` returns on `a` and `b`: both have elements, the walk of `get_lcs`
/// returns, and the edit walk along its result comes to its end.
pub open spec fn diffs_terminate<V>(a: Seq<V>, b: Seq<V>) -> bool {
    lcs_walk_returns(a, b) && align_ok(a, b, walk_lcs(a, b))
}

/// Where the walk of `get_lcs` stands after some steps.
pub enum LcsWalk<V> {
    /// It has ended, having found these elements (the last one found first).
    Done(Seq<V>),
    /// It has failed: an index would go below zero or out of the table.
    Stuck,
    /// It has not ended yet.
    Running,
}

/// The walk of `get_lcs` back through the table of `a` and `b`, from row `i` and column `k`,
/// with `found` (last found first) collected so far, for at most `fuel` steps. `e`, the length
/// of a longest common subsequence, is what the walk expects to collect; a cell whose count is
/// not the number still expected is overshot: the walk moves one row down and one column right,
/// wrapping to the first row or column from the last. A cell that fits and holds equal
/// elements contributes its element and the walk moves up and left; otherwise it moves left,
/// or to the end of the row above from the first column. The walk ends when it would leave
/// the first row.
pub open spec fn lcs_walk<V>(a: Seq<V>, b: Seq<V>, i: int, k: int, found: Seq<V>, fuel: nat) -> LcsWalk<V>
    decreases fuel,
{
    if fuel == 0 {
        LcsWalk::Running
    } else if !(0 <= i < a.len() && 0 <= k < b.len()) {
        LcsWalk::Stuck
    } else {
        let m = a.len() - 1;
        let n = b.len() - 1;
        let e = lcs_len(a, b) as int;
        let count = lcs_len(a.take(i + 1), b.take(k + 1)) as int;
        if found.len() > e {
            LcsWalk::Stuck
        } else if count != e - found.len() {
            lcs_walk(
                a,
                b,
                if i == m { 0 } else { i + 1 },
                if k == n { 0 } else { k + 1 },
                found,
                (fuel - 1) as nat,
            )
        } else if a[i] == b[k] {
            if i == 0 {
                LcsWalk::Done(found.push(a[i]))
            } else if k == 0 {
                LcsWalk::Stuck
            } else {
                lcs_walk(a, b, i - 1, k - 1, found.push(a[i]), (fuel - 1) as nat)
            }
        } else if k > 0 {
            lcs_walk(a, b, i, k - 1, found, (fuel - 1) as nat)
        } else if i == 0 {
            LcsWalk::Done(found)
        } else {
            lcs_walk(a, b, i - 1, n, found, (fuel - 1) as nat)
        }
    }
}

/// The walk ended, with as many elements as a longest common subsequence has.
pub open spec fn walk_done<V>(w: LcsWalk<V>, e: nat) -> bool {
    match w {
        LcsWalk::Done(s) => s.len() == e,
        _ => false,
    }
}

/// The walk from the last cell ends within `fuel` steps with a full-length result.
pub open spec fn lcs_walk_ends_within<V>(a: Seq<V>, b: Seq<V>, fuel: nat) -> bool {
    a.len() > 0 && b.len() > 0 && walk_done(
        lcs_walk(a, b, a.len() - 1, b.len() - 1, Seq::empty(), fuel),
        lcs_len(a, b),
    )
}

/// Whether `get_lcs` returns on `a` and `b`: both have elements, and the walk ends with as
/// many elements as a longest common subsequence has.
pub open spec fn lcs_walk_returns<V>(a: Seq<V>, b: Seq<V>) -> bool {
    exists|f: nat| lcs_walk_ends_within(a, b, f)
}

/// Enough steps for the walk to end, when it does.
pub open spec fn walk_fuel<V>(a: Seq<V>, b: Seq<V>) -> nat {
    choose|f: nat| lcs_walk_ends_within(a, b, f)
}

/// What `get_lcs` returns: the elements the walk found, in order.
pub open spec fn walk_lcs<V>(a: Seq<V>, b: Seq<V>) -> Seq<V> {
    match lcs_walk(a, b, a.len() - 1, b.len() - 1, Seq::empty(), walk_fuel(a, b)) {
        LcsWalk::Done(s) => s.reverse(),
        _ => Seq::empty(),
    }
}

/// The views of the elements of `s`.
pub open spec fn seq_views<T: View>(s: Seq<T>) -> Seq<T::V> {
    s.map_values(|t: T| t@)
}

/// The cell of the table of longest common subsequences for the prefixes that end at
/// `a[i]` and `b[k]`: the length of their longest common subsequence, and whether the
/// two elements are equal.
pub open spec fn dp_cell<V>(a: Seq<V>, b: Seq<V>, i: int, k: int) -> (usize, bool) {
    (lcs_len(a.take(i + 1), b.take(k + 1)) as usize, a[i] == b[k])
}

/// `dp` is the full table of `dp_cell` for `a` and `b`.
pub open spec fn is_dp_table<V>(dp: Seq<Vec<(usize, bool)>>, a: Seq<V>, b: Seq<V>) -> bool {
    &&& dp.len() == a.len()
    &&& forall|i: int| 0 <= i < a.len() ==> #[trigger] dp[i]@.len() == b.len()
    &&& forall|i: int, k: int|
        0 <= i < a.len() && 0 <= k < b.len() ==> #[trigger] dp[i]@[k] == dp_cell(a, b, i, k)
}

/// Unfolds `lcs_len` for the prefixes ending at `a[i]` and `b[k]`.
proof fn lemma_dp_step<V>(a: Seq<V>, b: Seq<V>, i: int, k: int)
    requires
        0 <= i < a.len(),
        0 <= k < b.len(),
    ensures
        lcs_len(a.take(i), b.take(k)) <= i,
        lcs_len(a.take(i + 1), b.take(k)) <= i + 1,
        lcs_len(a.take(i), b.take(k + 1)) <= i,
        lcs_len(a.take(i + 1), b.take(k + 1)) <= i + 1,
        a[i] == b[k] ==> lcs_len(a.take(i + 1), b.take(k + 1)) == lcs_len(a.take(i), b.take(k))
            + 1,
        a[i] != b[k] ==> lcs_len(a.take(i + 1), b.take(k + 1)) == if lcs_len(
            a.take(i),
            b.take(k + 1),
        ) >= lcs_len(a.take(i + 1), b.take(k)) {
            lcs_len(a.take(i), b.take(k + 1))
        } else {
            lcs_len(a.take(i + 1), b.take(k))
        },
        i == 0 ==> lcs_len(a.take(i), b.take(k)) == 0 && lcs_len(a.take(i), b.take(k + 1)) == 0,
        k == 0 ==> lcs_len(a.take(i), b.take(k)) == 0 && lcs_len(a.take(i + 1), b.take(k)) == 0,
{
    let x = a.take(i + 1);
    let y = b.take(k + 1);
    assert(x.drop_last() =~= a.take(i));
    assert(y.drop_last() =~= b.take(k));
    lemma_lcs_len_bound(a.take(i), b.take(k));
    lemma_lcs_len_bound(a.take(i + 1), b.take(k));
    lemma_lcs_len_bound(a.take(i), b.take(k + 1));
    lemma_lcs_len_bound(x, y);
}

impl<T: DiffItem> Diff<T> {
    /// The table of longest common subsequences of the prefixes of `old` and `new`:
    /// row `i`, column `k` holds the length for the prefixes ending at `old[i]` and
    /// `new[k]`, and whether those two elements are equal.
    pub fn get_dp_table(old: &Vec<T>, new: &Vec<T>) -> (dp: Vec<Vec<(usize, bool)>>)
        ensures
            is_dp_table(dp@, seq_views(old@), seq_views(new@)),
    {
        let ghost a = seq_views(old@);
        let ghost b = seq_views(new@);
        let m = old.len();
        let n = new.len();
        let mut dp: Vec<Vec<(usize, bool)>> = Vec::new();
        let mut i: usize = 0;
        while i < m
            invariant
                m == old@.len(),
                n == new@.len(),
                a == seq_views(old@),
                b == seq_views(new@),
                i <= m,
                dp@.len() == i,
                forall|r: int| 0 <= r < i ==> #[trigger] dp@[r]@.len() == n,
                forall|r: int, c: int|
                    0 <= r < i && 0 <= c < n ==> #[trigger] dp@[r]@[c] == dp_cell(a, b, r, c),
            decreases m - i,
        {
            let mut row: Vec<(usize, bool)> = Vec::new();
            let mut k: usize = 0;
            while k < n
                invariant
                    m == old@.len(),
                    n == new@.len(),
                    a == seq_views(old@),
                    b == seq_views(new@),
                    i < m,
                    dp@.len() == i,
                    forall|r: int| 0 <= r < i ==> #[trigger] dp@[r]@.len() == n,
                    forall|r: int, c: int|
                        0 <= r < i && 0 <= c < n ==> #[trigger] dp@[r]@[c] == dp_cell(a, b, r, c),
                    k <= n,
                    row@.len() == k,
                    forall|c: int| 0 <= c < k ==> #[trigger] row@[c] == dp_cell(a, b, i as int, c),
                decreases n - k,
            {
                proof {
                    lemma_dp_step(a, b, i as int, k as int);
                    if i > 0 && k > 0 {
                        lemma_dp_step(a, b, i - 1, k - 1);
                    }
                    if i > 0 {
                        lemma_dp_step(a, b, i - 1, k as int);
                    }
                    if k > 0 {
                        lemma_dp_step(a, b, i as int, k - 1);
                    }
                }
                let matching = old[i].same(&new[k]);
                let val: usize = if matching {
                    if i == 0 || k == 0 {
                        1
                    } else {
                        dp[i - 1][k - 1].0 + 1
                    }
                } else {
                    let left: usize = if k == 0 {
                        0
                    } else {
                        row[k - 1].0
                    };
                    let top: usize = if i == 0 {
                        0
                    } else {
                        dp[i - 1][k].0
                    };
                    if top >= left {
                        top
                    } else {
                        left
                    }
                };
                row.push((val, matching));
                k += 1;
            }
            dp.push(row);
            i += 1;
        }
        dp
    }
}


/// A walk that has ended goes on reporting the same end with more steps.
proof fn lemma_walk_more_fuel<V>(a: Seq<V>, b: Seq<V>, i: int, k: int, found: Seq<V>, f1: nat, f2: nat)
    requires
        f1 <= f2,
        !(lcs_walk(a, b, i, k, found, f1) is Running),
    ensures
        lcs_walk(a, b, i, k, found, f2) == lcs_walk(a, b, i, k, found, f1),
    decreases f1,
{
    if f1 > 0 && 0 <= i < a.len() && 0 <= k < b.len() {
        let m = a.len() - 1;
        let n = b.len() - 1;
        let e = lcs_len(a, b) as int;
        let count = lcs_len(a.take(i + 1), b.take(k + 1)) as int;
        if found.len() > e {
        } else if count != e - found.len() {
            lemma_walk_more_fuel(
                a,
                b,
                if i == m { 0 } else { i + 1 },
                if k == n { 0 } else { k + 1 },
                found,
                (f1 - 1) as nat,
                (f2 - 1) as nat,
            );
        } else if a[i] == b[k] {
            if i > 0 && k > 0 {
                lemma_walk_more_fuel(a, b, i - 1, k - 1, found.push(a[i]), (f1 - 1) as nat, (f2 - 1) as nat);
            }
        } else if k > 0 {
            lemma_walk_more_fuel(a, b, i, k - 1, found, (f1 - 1) as nat, (f2 - 1) as nat);
        } else if i > 0 {
            lemma_walk_more_fuel(a, b, i - 1, n, found, (f1 - 1) as nat, (f2 - 1) as nat);
        }
    }
}

/// Law: the walk's result does not depend on how many steps it was given, once it has ended.
pub proof fn lemma_walk_result_unique<V>(a: Seq<V>, b: Seq<V>, f: nat)
    requires
        lcs_walk_ends_within(a, b, f),
    ensures
        lcs_walk_returns(a, b),
        lcs_walk(a, b, a.len() - 1, b.len() - 1, Seq::empty(), f) matches LcsWalk::Done(s) && walk_lcs(a, b)
            == s.reverse(),
{
    let g = walk_fuel(a, b);
    assert(lcs_walk_ends_within(a, b, g));
    let m = a.len() - 1;
    let n = b.len() - 1;
    if f <= g {
        lemma_walk_more_fuel(a, b, m, n, Seq::empty(), f, g);
    } else {
        lemma_walk_more_fuel(a, b, m, n, Seq::empty(), g, f);
    }
}

/// The table's count at a cell is the length of the longest common subsequence of the
/// prefixes ending there, and fits in `usize`.
proof fn lemma_cell<V>(dp: Seq<Vec<(usize, bool)>>, a: Seq<V>, b: Seq<V>, i: int, k: int)
    requires
        is_dp_table(dp, a, b),
        0 <= i < a.len(),
        0 <= k < b.len(),
        a.len() <= usize::MAX,
    ensures
        dp[i]@[k].0 as int == lcs_len(a.take(i + 1), b.take(k + 1)) as int,
        dp[i]@[k].1 == (a[i] == b[k]),
{
    lemma_lcs_len_bound(a.take(i + 1), b.take(k + 1));
    assert(dp[i]@[k] == dp_cell(a, b, i, k));
}

impl<T: DiffItem> Diff<T> {
    /// The common subsequence `get_diffs` walks along: the walk back through the table of
    /// `get_dp_table` from its last cell (see `lcs_walk`), in order. It returns where that walk
    /// ends with as many elements as a longest common subsequence has (it needs elements on
    /// both sides).
    pub fn get_lcs(old: &Vec<T>, new: &Vec<T>) -> (lcs: Vec<T>)
        requires
            lcs_walk_returns(seq_views(old@), seq_views(new@)),
        ensures
            seq_views(lcs@) == walk_lcs(seq_views(old@), seq_views(new@)),
            lcs@.len() == lcs_len(seq_views(old@), seq_views(new@)),
    {
        let ghost a = seq_views(old@);
        let ghost b = seq_views(new@);
        let ghost f0 = walk_fuel(a, b);
        proof {
            assert(lcs_walk_ends_within(a, b, f0));
        }
        let ghost target = lcs_walk(a, b, a.len() - 1, b.len() - 1, Seq::empty(), f0);
        let dp = Self::get_dp_table(old, new);
        let m = old.len() - 1;
        let n = new.len() - 1;
        proof {
            lemma_cell(dp@, a, b, m as int, n as int);
            assert(a.take(m + 1) =~= a);
            assert(b.take(n + 1) =~= b);
        }
        let e = dp[m][n].0;
        let mut i = m;
        let mut k = n;
        let mut found: Vec<T> = Vec::new();
        let ghost mut fuel = f0;
        proof {
            assert(seq_views(found@) =~= Seq::<T::V>::empty());
        }
        loop
            invariant_except_break
                lcs_walk(a, b, i as int, k as int, seq_views(found@), fuel) == target,
            invariant
                a == seq_views(old@),
                b == seq_views(new@),
                is_dp_table(dp@, a, b),
                m == a.len() - 1,
                n == b.len() - 1,
                e == lcs_len(a, b),
                a.len() <= usize::MAX,
                walk_done(target, lcs_len(a, b)),
            ensures
                target == LcsWalk::Done(seq_views(found@)),
            decreases fuel,
        {
            let ghost fv = seq_views(found@);
            proof {
                if fuel == 0 || !(i < a.len() && k < b.len()) || fv.len() > e {
                    assert(false);
                }
                lemma_cell(dp@, a, b, i as int, k as int);
            }
            let (count, is_match) = dp[i][k];
            if count != e - found.len() {
                i = if i == m { 0 } else { i + 1 };
                k = if k == n { 0 } else { k + 1 };
                proof {
                    fuel = (fuel - 1) as nat;
                }
                continue;
            }
            if is_match {
                found.push(old[i].duplicate());
                proof {
                    assert(seq_views(found@) =~= fv.push(a[i as int]));
                }
                if i == 0 {
                    break;
                }
                if k == 0 {
                    proof {
                        assert(false);
                    }
                    break;
                }
                i -= 1;
                k -= 1;
            } else if k > 0 {
                k -= 1;
            } else {
                if i == 0 {
                    break;
                }
                i -= 1;
                k = n;
            }
            proof {
                fuel = (fuel - 1) as nat;
            }
        }
        let ghost s = seq_views(found@);
        proof {
            assert(target == LcsWalk::Done(s));
        }
        let mut lcs: Vec<T> = Vec::new();
        let mut t = found.len();
        while t > 0
            invariant
                t <= found@.len(),
                s == seq_views(found@),
                lcs@.len() == found@.len() - t,
                forall|u: int| 0 <= u < lcs@.len() ==> #[trigger] lcs@[u]@ == s[s.len() - 1 - u],
            decreases t,
        {
            t -= 1;
            lcs.push(found[t].duplicate());
        }
        proof {
            assert(seq_views(lcs@) =~= s.reverse());
        }
        lcs
    }

    /// The walk of `get_lcs`, given at most `max_steps` steps: its result when it ends within
    /// them with a full-length result, `None` otherwise.
    fn lcs_within(old: &Vec<T>, new: &Vec<T>, max_steps: u64) -> (r: Option<Vec<T>>)
        ensures
            match r {
                Some(v) => lcs_walk_ends_within(seq_views(old@), seq_views(new@), max_steps as nat)
                    && seq_views(v@) == walk_lcs(seq_views(old@), seq_views(new@)),
                None => !lcs_walk_ends_within(seq_views(old@), seq_views(new@), max_steps as nat),
            },
    {
        let ghost a = seq_views(old@);
        let ghost b = seq_views(new@);
        if old.len() == 0 || new.len() == 0 {
            return None;
        }
        let ghost start = lcs_walk(a, b, a.len() - 1, b.len() - 1, Seq::empty(), max_steps as nat);
        let dp = Self::get_dp_table(old, new);
        let m = old.len() - 1;
        let n = new.len() - 1;
        proof {
            lemma_cell(dp@, a, b, m as int, n as int);
            assert(a.take(m + 1) =~= a);
            assert(b.take(n + 1) =~= b);
        }
        let e = dp[m][n].0;
        let mut i = m;
        let mut k = n;
        let mut found: Vec<T> = Vec::new();
        let mut steps: u64 = max_steps;
        proof {
            assert(seq_views(found@) =~= Seq::<T::V>::empty());
        }
        loop
            invariant_except_break
                lcs_walk(a, b, i as int, k as int, seq_views(found@), steps as nat) == start,
            invariant
                a == seq_views(old@),
                b == seq_views(new@),
                is_dp_table(dp@, a, b),
                m == a.len() - 1,
                n == b.len() - 1,
                e == lcs_len(a, b),
                a.len() <= usize::MAX,
                start == lcs_walk(a, b, a.len() - 1, b.len() - 1, Seq::empty(), max_steps as nat),
            ensures
                start == LcsWalk::Done(seq_views(found@)),
            decreases steps,
        {
            let ghost fv = seq_views(found@);
            if steps == 0 {
                return None;
            }
            if i > m || k > n || found.len() > e {
                return None;
            }
            proof {
                lemma_cell(dp@, a, b, i as int, k as int);
            }
            let (count, is_match) = dp[i][k];
            if count != e - found.len() {
                i = if i == m { 0 } else { i + 1 };
                k = if k == n { 0 } else { k + 1 };
                steps -= 1;
                continue;
            }
            if is_match {
                found.push(old[i].duplicate());
                proof {
                    assert(seq_views(found@) =~= fv.push(a[i as int]));
                }
                if i == 0 {
                    break;
                }
                if k == 0 {
                    return None;
                }
                i -= 1;
                k -= 1;
            } else if k > 0 {
                k -= 1;
            } else {
                if i == 0 {
                    break;
                }
                i -= 1;
                k = n;
            }
            steps -= 1;
        }
        if found.len() != e {
            return None;
        }
        let ghost s = seq_views(found@);
        proof {
            assert(start == LcsWalk::Done(s));
            lemma_walk_result_unique(a, b, max_steps as nat);
        }
        let mut lcs: Vec<T> = Vec::new();
        let mut t = found.len();
        while t > 0
            invariant
                t <= found@.len(),
                s == seq_views(found@),
                lcs@.len() == found@.len() - t,
                forall|u: int| 0 <= u < lcs@.len() ==> #[trigger] lcs@[u]@ == s[s.len() - 1 - u],
            decreases t,
        {
            t -= 1;
            lcs.push(found[t].duplicate());
        }
        proof {
            assert(seq_views(lcs@) =~= s.reverse());
        }
        Some(lcs)
    }
}

impl<T: DiffItem> Diff<T> {
    /// The edit walk of `align` over `old`, `new` and `lcs`, when it comes to its end; `None`
    /// where `get_diffs` would not return.
    fn diffs_along(old: &Vec<T>, new: &Vec<T>, lcs: &Vec<T>) -> (r: Option<Vec<Diff<T>>>)
        ensures
            r is Some <==> align_ok(seq_views(old@), seq_views(new@), seq_views(lcs@)),
            r matches Some(d) ==> diff_views(d@) == align(
                seq_views(old@),
                seq_views(new@),
                seq_views(lcs@),
                0,
                0,
            ),
    {
        let ghost a = seq_views(old@);
        let ghost b = seq_views(new@);
        let ghost l = seq_views(lcs@);
        let ghost whole = align(a, b, l, 0, 0);
        let mut diffs: Vec<Diff<T>> = Vec::new();
        let mut i: usize = 0;
        let mut k: usize = 0;
        let mut j: usize = 0;
        proof {
            assert(a.skip(0) =~= a);
            assert(b.skip(0) =~= b);
            assert(l.skip(0) =~= l);
            assert(diff_views(diffs@) =~= Seq::<Diff<T::V>>::empty());
            assert(whole =~= diff_views(diffs@) + whole);
        }
        loop
            invariant
                a == seq_views(old@),
                b == seq_views(new@),
                l == seq_views(lcs@),
                whole == align(a, b, l, 0, 0),
                i <= a.len(),
                k <= b.len(),
                j <= l.len(),
                whole == diff_views(diffs@) + align(a.skip(i as int), b.skip(k as int), l.skip(j as int), i as nat, k as nat),
                align_ok(a, b, l) == align_ok(a.skip(i as int), b.skip(k as int), l.skip(j as int)),
            ensures
                whole == diff_views(diffs@),
                align_ok(a, b, l),
            decreases (a.len() - i) + (b.len() - k),
        {
            let ghost x = a.skip(i as int);
            let ghost y = b.skip(k as int);
            let ghost s = l.skip(j as int);
            let ghost done = diff_views(diffs@);
            proof {
                if i < a.len() {
                    assert(x.drop_first() =~= a.skip(i + 1));
                    assert(x[0] == a[i as int]);
                }
                if k < b.len() {
                    assert(y.drop_first() =~= b.skip(k + 1));
                    assert(y[0] == b[k as int]);
                }
                if j < l.len() {
                    assert(s.drop_first() =~= l.skip(j + 1));
                    assert(s[0] == l[j as int]);
                }
            }
            if i < old.len() && k < new.len() {
                if old[i].same(&new[k]) {
                    if j < lcs.len() && lcs[j].same(&old[i]) {
                        i += 1;
                        k += 1;
                        j += 1;
                    } else {
                        return None;
                    }
                } else {
                    let new_differs = j < lcs.len() && !lcs[j].same(&new[k]);
                    let old_differs = j < lcs.len() && !lcs[j].same(&old[i]);
                    if new_differs && old_differs {
                        diffs.push(Diff::Change(i, new[k].duplicate()));
                        proof {
                            assert(diff_views(diffs@) =~= done.push(diffs@.last()@));
                        }
                        i += 1;
                        k += 1;
                    } else if new_differs {
                        diffs.push(Diff::Insert(k, new[k].duplicate()));
                        proof {
                            assert(diff_views(diffs@) =~= done.push(diffs@.last()@));
                        }
                        k += 1;
                    } else if old_differs {
                        diffs.push(Diff::Delete(i));
                        proof {
                            assert(diff_views(diffs@) =~= done.push(diffs@.last()@));
                        }
                        i += 1;
                    } else {
                        return None;
                    }
                }
            } else if k < new.len() {
                diffs.push(Diff::Insert(k, new[k].duplicate()));
                proof {
                    assert(diff_views(diffs@) =~= done.push(diffs@.last()@));
                }
                k += 1;
            } else if i < old.len() {
                diffs.push(Diff::Delete(i));
                proof {
                    assert(diff_views(diffs@) =~= done.push(diffs@.last()@));
                }
                i += 1;
            } else {
                proof {
                    assert(whole =~= done);
                }
                break;
            }
        }
        Some(diffs)
    }

    /// The edit script from `old` to `new` along `get_lcs(old, new)`; see `align`. It returns
    /// where the original walks do: see `diffs_terminate`.
    pub fn get_diffs(old: &Vec<T>, new: &Vec<T>) -> (diffs: Vec<Diff<T>>)
        requires
            diffs_terminate(seq_views(old@), seq_views(new@)),
        ensures
            diff_views(diffs@) == align(
                seq_views(old@),
                seq_views(new@),
                walk_lcs(seq_views(old@), seq_views(new@)),
                0,
                0,
            ),
    {
        let lcs = Self::get_lcs(old, new);
        match Self::diffs_along(old, new, &lcs) {
            Some(d) => d,
            None => {
                proof {
                    assert(false);
                }
                Vec::new()
            },
        }
    }

    /// Whether `get_diffs` returns on `old` and `new`, deciding with the walk of `get_lcs`
    /// given at most `max_steps` steps: `true` only where it returns, `false` where the edit
    /// walk would not end or the walk of `get_lcs` does not end within `max_steps` steps.
    pub fn walk_ends(old: &Vec<T>, new: &Vec<T>, max_steps: u64) -> (r: bool)
        ensures
            r ==> diffs_terminate(seq_views(old@), seq_views(new@)),
            !r ==> !lcs_walk_ends_within(seq_views(old@), seq_views(new@), max_steps as nat)
                || !diffs_terminate(seq_views(old@), seq_views(new@)),
    {
        match Self::lcs_within(old, new, max_steps) {
            None => false,
            Some(lcs) => {
                proof {
                    lemma_walk_result_unique(seq_views(old@), seq_views(new@), max_steps as nat);
                }
                Self::diffs_along(old, new, &lcs).is_some()
            },
        }
    }
}

/// What an edit script makes of `a`, read from the front: `i` is the first element of `a`
/// not yet used and `out` what has been written so far. A deletion or change at old position
/// `p` first copies `a[i..p]` (the elements kept in between), then drops `a[p]` or writes the
/// new element in its place; an insertion at new position `k` first copies kept elements
/// until `k` elements are written, then writes the new element. What is left of `a` is
/// copied at the end.
pub open spec fn patch<V>(a: Seq<V>, d: Seq<Diff<V>>, i: int, out: Seq<V>) -> Seq<V>
    decreases d.len(),
{
    if d.len() == 0 {
        out + a.skip(i)
    } else {
        match d[0] {
            Diff::Delete(p) => patch(a, d.drop_first(), p + 1, out + a.subrange(i, p as int)),
            Diff::Change(p, t) => patch(
                a,
                d.drop_first(),
                p + 1,
                out + a.subrange(i, p as int).push(t),
            ),
            Diff::Insert(k, t) => {
                let n = k - out.len();
                patch(a, d.drop_first(), i + n, out + a.subrange(i, i + n).push(t))
            },
        }
    }
}

/// The rest of the edit walk from old position `i`, new position `k` and position `j` of `l`
/// patches the rest of `a` into the rest of `b`, given that `out` followed by the kept
/// elements `a[i0..i]` is the start of `b`.
proof fn lemma_patch_walk<V>(a: Seq<V>, b: Seq<V>, l: Seq<V>, i: int, k: int, j: int, i0: int, out: Seq<V>)
    requires
        0 <= i0 <= i <= a.len(),
        0 <= k <= b.len(),
        0 <= j <= l.len(),
        a.len() <= usize::MAX,
        b.len() <= usize::MAX,
        align_ok(a.skip(i), b.skip(k), l.skip(j)),
        out + a.subrange(i0, i) == b.take(k),
    ensures
        patch(a, align(a.skip(i), b.skip(k), l.skip(j), i as nat, k as nat), i0, out) == b,
    decreases (a.len() - i) + (b.len() - k),
{
    let x = a.skip(i);
    let y = b.skip(k);
    let s = l.skip(j);
    if i < a.len() {
        assert(x.drop_first() =~= a.skip(i + 1));
        assert(x[0] == a[i]);
    }
    if k < b.len() {
        assert(y.drop_first() =~= b.skip(k + 1));
        assert(y[0] == b[k]);
    }
    if j < l.len() {
        assert(s.drop_first() =~= l.skip(j + 1));
        assert(s[0] == l[j]);
    }
    assert((out + a.subrange(i0, i)).len() == out.len() + (i - i0));
    assert(b.take(k).len() == k);
    if i < a.len() && k < b.len() {
        if a[i] == b[k] {
            assert(out + a.subrange(i0, i + 1) =~= b.take(k + 1)) by {
                assert(a.subrange(i0, i + 1) =~= a.subrange(i0, i).push(a[i]));
                assert(b.take(k + 1) =~= b.take(k).push(b[k]));
            }
            lemma_patch_walk(a, b, l, i + 1, k + 1, j + 1, i0, out);
        } else {
            let new_differs = s.len() > 0 && s[0] != y[0];
            let old_differs = s.len() > 0 && s[0] != x[0];
            let rest_out = b.take(k + 1);
            assert(out + a.subrange(i0, i) + seq![b[k]] =~= rest_out) by {
                assert(b.take(k + 1) =~= b.take(k).push(b[k]));
            }
            let d = align(x, y, s, i as nat, k as nat);
            if new_differs && old_differs {
                assert(d[0] == Diff::Change(i as usize, b[k]));
                assert(d.drop_first() =~= align(x.drop_first(), y.drop_first(), s, (i + 1) as nat, (k + 1) as nat));
                assert(out + a.subrange(i0, i).push(b[k]) =~= rest_out);
                assert(rest_out + a.subrange(i + 1, i + 1) =~= b.take(k + 1));
                lemma_patch_walk(a, b, l, i + 1, k + 1, j, i + 1, rest_out);
            } else if new_differs {
                assert(d[0] == Diff::Insert(k as usize, b[k]));
                assert(d.drop_first() =~= align(x, y.drop_first(), s, i as nat, (k + 1) as nat));
                assert(out + a.subrange(i0, i0 + (k - out.len())).push(b[k]) =~= rest_out);
                assert(rest_out + a.subrange(i, i) =~= b.take(k + 1));
                lemma_patch_walk(a, b, l, i, k + 1, j, i, rest_out);
            } else {
                assert(old_differs);
                assert(d[0] == Diff::<V>::Delete(i as usize));
                assert(d.drop_first() =~= align(x.drop_first(), y, s, (i + 1) as nat, k as nat));
                let out2 = out + a.subrange(i0, i);
                assert(out2 + a.subrange(i + 1, i + 1) =~= b.take(k));
                lemma_patch_walk(a, b, l, i + 1, k, j, i + 1, out2);
            }
        }
    } else if k < b.len() {
        let d = align(x, y, s, i as nat, k as nat);
        assert(d[0] == Diff::Insert(k as usize, b[k]));
        assert(d.drop_first() =~= align(x, y.drop_first(), s, i as nat, (k + 1) as nat));
        let rest_out = b.take(k + 1);
        assert(out + a.subrange(i0, i0 + (k - out.len())).push(b[k]) =~= rest_out) by {
            assert(b.take(k + 1) =~= b.take(k).push(b[k]));
        }
        assert(rest_out + a.subrange(i, i) =~= b.take(k + 1));
        lemma_patch_walk(a, b, l, i, k + 1, j, i, rest_out);
    } else if i < a.len() {
        let d = align(x, y, s, i as nat, k as nat);
        assert(d[0] == Diff::<V>::Delete(i as usize));
        assert(d.drop_first() =~= align(x.drop_first(), y, s, (i + 1) as nat, k as nat));
        let out2 = out + a.subrange(i0, i);
        assert(out2 + a.subrange(i + 1, i + 1) =~= b.take(k));
        lemma_patch_walk(a, b, l, i + 1, k, j, i + 1, out2);
    } else {
        assert(align(x, y, s, i as nat, k as nat) =~= Seq::<Diff<V>>::empty());
        assert(a.skip(i0) =~= a.subrange(i0, i));
        assert(b.take(k) =~= b);
    }
}

/// Law: an edit script that the walk along any `l` produces, whenever that walk comes to its
/// end, turns `a` into `b` (the positions it names are machine integers). In particular the
/// script of `get_diffs` turns the old sequence into the new one.
pub proof fn lemma_diffs_patch_old_into_new<V>(a: Seq<V>, b: Seq<V>, l: Seq<V>)
    requires
        align_ok(a, b, l),
        a.len() <= usize::MAX,
        b.len() <= usize::MAX,
    ensures
        patch(a, align(a, b, l, 0, 0), 0, Seq::empty()) == b,
{
    assert(a.skip(0) =~= a);
    assert(b.skip(0) =~= b);
    assert(l.skip(0) =~= l);
    assert(Seq::<V>::empty() + a.subrange(0, 0) =~= b.take(0));
    lemma_patch_walk(a, b, l, 0, 0, 0, 0, Seq::empty());
}

/// Law: the edit script is empty exactly when the two sequences are equal (whenever the walk
/// comes to its end); so identical sequences have no differences.
pub proof fn lemma_no_diffs_iff_equal<V>(a: Seq<V>, b: Seq<V>, l: Seq<V>, i: nat, k: nat)
    requires
        align_ok(a, b, l),
    ensures
        align(a, b, l, i, k).len() == 0 <==> a == b,
    decreases a.len() + b.len(),
{
    if a.len() > 0 && b.len() > 0 {
        if a[0] == b[0] {
            lemma_no_diffs_iff_equal(a.drop_first(), b.drop_first(), l.drop_first(), i + 1, k + 1);
            assert(a =~= seq![a[0]] + a.drop_first());
            assert(b =~= seq![b[0]] + b.drop_first());
            if a == b {
                assert(a.drop_first() =~= b.drop_first());
            }
        } else {
            assert(a[0] != b[0]);
        }
    } else if a.len() > 0 || b.len() > 0 {
        assert(a.len() != b.len());
    } else {
        assert(a =~= b);
    }
}

} // verus!
