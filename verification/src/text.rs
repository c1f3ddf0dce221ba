//! Character-level text helpers: whitespace, trimming, words and lines.
use vstd::prelude::*;
use vstd::string::StrSliceExecFns;

verus! {

/// Unicode `White_Space`, the set of characters that `char::is_whitespace` accepts.
pub open spec fn is_ws(c: char) -> bool {
    ('\u{9}' <= c && c <= '\u{d}') || c == ' ' || c == '\u{85}' || c == '\u{a0}' || c == '\u{1680}'
        || ('\u{2000}' <= c && c <= '\u{200a}') || c == '\u{2028}' || c == '\u{2029}' || c
        == '\u{202f}' || c == '\u{205f}' || c == '\u{3000}'
}

/// Whether `c` is whitespace, as `char::is_whitespace` decides.
pub fn is_whitespace(c: char) -> (r: bool)
    ensures
        r == is_ws(c),
{
    ('\u{9}' <= c && c <= '\u{d}') || c == ' ' || c == '\u{85}' || c == '\u{a0}' || c == '\u{1680}'
        || ('\u{2000}' <= c && c <= '\u{200a}') || c == '\u{2028}' || c == '\u{2029}' || c
        == '\u{202f}' || c == '\u{205f}' || c == '\u{3000}'
}

/// `s` without its leading whitespace.
pub open spec fn trim_start(s: Seq<char>) -> Seq<char>
    decreases s.len(),
{
    if s.len() > 0 && is_ws(s[0]) {
        trim_start(s.drop_first())
    } else {
        s
    }
}

/// `s` without its trailing whitespace.
pub open spec fn trim_end(s: Seq<char>) -> Seq<char>
    decreases s.len(),
{
    if s.len() > 0 && is_ws(s.last()) {
        trim_end(s.drop_last())
    } else {
        s
    }
}

/// `s` without leading and trailing whitespace, as `str::trim` returns it.
pub open spec fn trim(s: Seq<char>) -> Seq<char> {
    trim_end(trim_start(s))
}

/// Trimming keeps a first character that is not whitespace.
pub proof fn lemma_trim_keeps_first(s: Seq<char>)
    requires
        s.len() > 0,
        !is_ws(s[0]),
    ensures
        trim(s).len() > 0,
        trim(s)[0] == s[0],
{
    lemma_trim_end_keeps_first(s);
}

proof fn lemma_trim_end_keeps_first(s: Seq<char>)
    requires
        s.len() > 0,
        !is_ws(s[0]),
    ensures
        trim_end(s).len() > 0,
        trim_end(s)[0] == s[0],
    decreases s.len(),
{
    if is_ws(s.last()) {
        lemma_trim_end_keeps_first(s.drop_last());
    }
}

/// Every character of `s` is whitespace.
pub open spec fn all_ws(s: Seq<char>) -> bool {
    forall|i: int| 0 <= i < s.len() ==> is_ws(#[trigger] s[i])
}

/// Appends `c` to `s`; a wrapper of `String::push`.
/// Trusted: claims only that the characters of `s` gain `c` at the end, as std documents.
#[verifier::external_body]
pub(crate) fn push_char(s: &mut String, c: char)
    ensures
        final(s)@ == old(s)@.push(c),
{
    s.push(c)
}

/// The characters of `s`.
pub fn chars_of(s: &str) -> (v: Vec<char>)
    ensures
        v@ == s@,
{
    let n = s.unicode_len();
    let mut v: Vec<char> = Vec::new();
    let mut i: usize = 0;
    while i < n
        invariant
            n == s@.len(),
            i <= n,
            v@ == s@.take(i as int),
        decreases n - i,
    {
        let c = s.get_char(i);
        v.push(c);
        i += 1;
        proof {
            assert(v@ =~= s@.take(i as int));
        }
    }
    proof {
        assert(s@.take(n as int) =~= s@);
    }
    v
}

/// A string of the characters `v[from..to]`.
pub fn string_from_range(v: &Vec<char>, from: usize, to: usize) -> (s: String)
    requires
        from <= to <= v@.len(),
    ensures
        s@ == v@.subrange(from as int, to as int),
{
    let mut s = String::new();
    let mut i = from;
    while i < to
        invariant
            from <= i <= to <= v@.len(),
            s@ == v@.subrange(from as int, i as int),
        decreases to - i,
    {
        push_char(&mut s, v[i]);
        i += 1;
        proof {
            assert(s@ =~= v@.subrange(from as int, i as int));
        }
    }
    s
}

/// A string of the characters of `v`.
pub fn string_from_chars(v: &Vec<char>) -> (s: String)
    ensures
        s@ == v@,
{
    let s = string_from_range(v, 0, v.len());
    proof {
        assert(v@.subrange(0, v@.len() as int) =~= v@);
    }
    s
}

/// Position of the first character of `v` that is not whitespace, at or after `from`,
/// or `v.len()` when there is none.
pub fn skip_ws(v: &Vec<char>, from: usize) -> (r: usize)
    requires
        from <= v@.len(),
    ensures
        from <= r <= v@.len(),
        forall|i: int| from <= i < r ==> is_ws(#[trigger] v@[i]),
        r < v@.len() ==> !is_ws(v@[r as int]),
{
    let mut i = from;
    while i < v.len() && is_whitespace(v[i])
        invariant
            from <= i <= v@.len(),
            forall|t: int| from <= t < i ==> is_ws(#[trigger] v@[t]),
        decreases v@.len() - i,
    {
        i += 1;
    }
    i
}

/// Whitespace at the front of `s.skip(from)` can be dropped before trimming.
pub proof fn lemma_trim_start_skip(s: Seq<char>, from: int, to: int)
    requires
        0 <= from <= to <= s.len(),
        forall|i: int| from <= i < to ==> is_ws(#[trigger] s[i]),
        to < s.len() ==> !is_ws(s[to]),
    ensures
        trim_start(s.skip(from)) == s.skip(to),
    decreases to - from,
{
    if from < to {
        assert(s.skip(from).drop_first() =~= s.skip(from + 1));
        lemma_trim_start_skip(s, from + 1, to);
    } else {
        if to < s.len() {
            assert(s.skip(to)[0] == s[to]);
        }
    }
}

/// Trailing whitespace of `s.take(to)` can be dropped before trimming.
proof fn lemma_trim_end_take(s: Seq<char>, from: int, to: int)
    requires
        0 <= from <= to <= s.len(),
        forall|i: int| from <= i < to ==> is_ws(#[trigger] s[i]),
        from > 0 ==> !is_ws(s[from - 1]),
    ensures
        trim_end(s.take(to)) == s.take(from),
    decreases to - from,
{
    if from < to {
        assert(s.take(to).drop_last() =~= s.take(to - 1));
        lemma_trim_end_take(s, from, to - 1);
    } else {
        if from > 0 {
            assert(s.take(from).last() == s[from - 1]);
        }
    }
}

/// Trimming keeps exactly the span between the leading and the trailing whitespace: when
/// `s[..a]` and `s[b..]` are whitespace and, if `s[a..b]` is not empty, its first and last
/// characters are not, `trim(s)` is `s[a..b]`.
pub proof fn lemma_trim_span(s: Seq<char>, a: int, b: int)
    requires
        0 <= a <= b <= s.len(),
        forall|i: int| 0 <= i < a ==> is_ws(#[trigger] s[i]),
        forall|i: int| b <= i < s.len() ==> is_ws(#[trigger] s[i]),
        a < b ==> !is_ws(s[a]) && !is_ws(s[b - 1]),
    ensures
        trim(s) == s.subrange(a, b),
{
    assert(s.skip(0) =~= s);
    if a == b {
        lemma_trim_start_skip(s, 0, s.len() as int);
        let e = s.skip(s.len() as int);
        assert(e.len() == 0);
        assert(trim_end(e) == e);
        assert(s.subrange(a, b) =~= e);
    } else {
        lemma_trim_start_skip(s, 0, a);
        let u = s.skip(a);
        assert forall|i: int| b - a <= i < u.len() implies is_ws(#[trigger] u[i]) by {
            assert(u[i] == s[a + i]);
        }
        assert(u[b - a - 1] == s[b - 1]);
        assert(u.take(u.len() as int) =~= u);
        lemma_trim_end_take(u, b - a, u.len() as int);
        assert(u.take(b - a) =~= s.subrange(a, b));
    }
}

/// Trimming the end keeps a prefix of the text and drops only whitespace.
pub proof fn lemma_trim_end_is_prefix(s: Seq<char>)
    ensures
        trim_end(s).len() <= s.len(),
        trim_end(s) == s.take(trim_end(s).len() as int),
        forall|i: int| trim_end(s).len() <= i < s.len() ==> is_ws(#[trigger] s[i]),
    decreases s.len(),
{
    if s.len() > 0 && is_ws(s.last()) {
        let d = s.drop_last();
        lemma_trim_end_is_prefix(d);
        let m = trim_end(d).len() as int;
        assert(d.take(m) =~= s.take(m));
        assert forall|i: int| m <= i < s.len() implies is_ws(#[trigger] s[i]) by {
            if i < s.len() - 1 {
                assert(s[i] == d[i]);
            }
        }
    } else {
        assert(s.take(s.len() as int) =~= s);
    }
}

/// Bounds of `trim(v[..])`: `v.subrange(r.0, r.1) == trim(v)`.
pub fn trim_bounds(v: &Vec<char>) -> (r: (usize, usize))
    ensures
        r.0 <= r.1 <= v@.len(),
        v@.subrange(r.0 as int, r.1 as int) == trim(v@),
{
    let start = skip_ws(v, 0);
    let mut end = v.len();
    while end > start && is_whitespace(v[end - 1])
        invariant
            start <= end <= v@.len(),
            forall|t: int| end <= t < v@.len() ==> is_ws(#[trigger] v@[t]),
        decreases end,
    {
        end -= 1;
    }
    proof {
        let s = v@;
        assert(s.skip(0) =~= s);
        lemma_trim_start_skip(s, 0, start as int);
        let u = s.skip(start as int);
        assert forall|i: int| end - start <= i < u.len() implies is_ws(#[trigger] u[i]) by {
            assert(u[i] == s[start + i]);
        }
        if end > start {
            assert(u[end - start - 1] == s[end - 1]);
        }
        assert(u.take(u.len() as int) =~= u);
        lemma_trim_end_take(u, end - start, u.len() as int);
        assert(u.take(end - start) =~= s.subrange(start as int, end as int));
    }
    (start, end)
}

/// `s` trimmed, as `str::trim` returns it.
pub fn trim_string(s: &str) -> (r: String)
    ensures
        r@ == trim(s@),
{
    let v = chars_of(s);
    let (a, b) = trim_bounds(&v);
    string_from_range(&v, a, b)
}

} // verus!
