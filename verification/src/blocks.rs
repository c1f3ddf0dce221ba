//! Documents cut into blocks of lines, as they are stored in the database.
use crate::text::{all_ws, chars_of, is_whitespace, is_ws, lemma_trim_keeps_first, trim, trim_start};
use crate::tokens::{blocks_text, TokenVec};
use crate::uri::{parse_uri, uri_parses, uri_path, uri_path_of};
use vstd::utf8::encode_utf8;
use vstd::prelude::*;
use vstd::string::StringExecFns;

verus! {

/// Lines per stored block.
pub const LINES_PER_BLOCK: usize = 25;

/// First position at or after `i` that holds a line feed, or `s.len()`.
pub open spec fn nl_from(s: Seq<char>, i: int) -> int
    decreases s.len() - i,
{
    if 0 <= i < s.len() && s[i] != '\n' {
        nl_from(s, i + 1)
    } else {
        i
    }
}

/// `l` without one trailing carriage return.
pub open spec fn strip_cr(l: Seq<char>) -> Seq<char> {
    if l.len() > 0 && l.last() == '\r' {
        l.drop_last()
    } else {
        l
    }
}

/// The next line feed at or after `i` lies within the text, with no line feed before it.
pub proof fn lemma_nl_from_bounds(s: Seq<char>, i: int)
    requires
        0 <= i <= s.len(),
    ensures
        i <= nl_from(s, i) <= s.len(),
        nl_from(s, i) < s.len() ==> s[nl_from(s, i)] == '\n',
    decreases s.len() - i,
{
    if i < s.len() && s[i] != '\n' {
        lemma_nl_from_bounds(s, i + 1);
    }
}

/// The lines of `s` from position `i` on, as `str::lines` yields them: split after each line
/// feed, without the line feed and a carriage return before it; no empty last line.
pub open spec fn lines_from(s: Seq<char>, i: int) -> Seq<Seq<char>>
    decreases s.len() - i,
{
    if i < 0 || i >= s.len() {
        Seq::empty()
    } else {
        let e = nl_from(s, i);
        proof {
            lemma_nl_from_bounds(s, i);
        }
        if e >= s.len() {
            seq![s.subrange(i, s.len() as int)]
        } else {
            seq![strip_cr(s.subrange(i, e))] + lines_from(s, e + 1)
        }
    }
}

/// The lines joined by line feeds.
pub open spec fn join_lines(ls: Seq<Seq<char>>) -> Seq<char>
    decreases ls.len(),
{
    if ls.len() == 0 {
        Seq::empty()
    } else if ls.len() == 1 {
        ls[0]
    } else {
        join_lines(ls.drop_last()) + "\n"@ + ls.last()
    }
}

/// The text of block number `c`: its lines joined by line feeds.
pub open spec fn chunk(ls: Seq<Seq<char>>, c: int) -> Seq<char> {
    let lo = if 25 * c <= ls.len() { 25 * c } else { ls.len() as int };
    let hi = if 25 * c + 25 <= ls.len() { 25 * c + 25 } else { ls.len() as int };
    join_lines(ls.subrange(lo, hi))
}

/// The texts of the blocks from number `c` on, up to the first one that is blank.
pub open spec fn chunks_from(ls: Seq<Seq<char>>, c: nat) -> Seq<Seq<char>>
    decreases ls.len() + 25 - 25 * c,
{
    if 25 * c >= ls.len() || trim(chunk(ls, c as int)).len() == 0 {
        Seq::empty()
    } else {
        seq![chunk(ls, c as int)] + chunks_from(ls, c + 1)
    }
}

/// A stored block of a document: its record id (the document's path followed by the block's
/// number), the document, the block's number and its text.
#[derive(Debug, PartialEq, Eq)]
pub struct DBBlock {
    pub record_id: String,
    pub uri: String,
    pub idx: usize,
    pub content: String,
}

/// The decimal digit `d`.
pub open spec fn digit_char(d: nat) -> char {
    (48 + d) as char
}

/// The decimal numeral of `n`.
pub open spec fn decimal(n: nat) -> Seq<char>
    decreases n,
{
    if n < 10 {
        seq![digit_char(n)]
    } else {
        decimal(n / 10).push(digit_char(n % 10))
    }
}

/// Appends the decimal numeral of `n` to `s`.
fn push_decimal(s: &mut String, n: usize)
    ensures
        final(s)@ == old(s)@ + decimal(n as nat),
    decreases n,
{
    if n >= 10 {
        push_decimal(s, n / 10);
    }
    let d: u8 = (n % 10) as u8;
    let c: char = (48u8 + d) as char;
    crate::text::push_char(s, c);
    proof {
        assert(c == digit_char((n % 10) as nat));
        if n >= 10 {
            assert(decimal(n as nat) == decimal((n / 10) as nat).push(digit_char((n % 10) as nat)));
        }
    }
}

/// A text is blank exactly when trimming leaves nothing.
proof fn lemma_trim_empty_iff_blank(s: Seq<char>)
    ensures
        trim(s).len() == 0 <==> all_ws(s),
    decreases s.len(),
{
    if s.len() > 0 {
        if is_ws(s[0]) {
            lemma_trim_empty_iff_blank(s.drop_first());
            assert(trim_start(s) == trim_start(s.drop_first()));
            if all_ws(s.drop_first()) {
                assert forall|i: int| 0 <= i < s.len() implies is_ws(#[trigger] s[i]) by {
                    if i > 0 {
                        assert(s[i] == s.drop_first()[i - 1]);
                    }
                }
            }
            if all_ws(s) {
                assert forall|i: int| 0 <= i < s.drop_first().len() implies is_ws(
                    #[trigger] s.drop_first()[i],
                ) by {
                    assert(s.drop_first()[i] == s[i + 1]);
                }
            }
        } else {
            lemma_trim_keeps_first(s);
        }
    }
}

/// Whether every character of `v` is whitespace.
fn is_blank(v: &Vec<char>) -> (r: bool)
    ensures
        r == all_ws(v@),
{
    let mut i: usize = 0;
    while i < v.len()
        invariant
            i <= v@.len(),
            forall|t: int| 0 <= t < i ==> is_ws(#[trigger] v@[t]),
        decreases v@.len() - i,
    {
        if !is_whitespace(v[i]) {
            return false;
        }
        i += 1;
    }
    true
}

/// The lines of `s`, as `str::lines` yields them.
fn split_lines(s: &Vec<char>) -> (r: Vec<Vec<char>>)
    ensures
        r@.map_values(|l: Vec<char>| l@) == lines_from(s@, 0),
{
    let mut out: Vec<Vec<char>> = Vec::new();
    let mut i: usize = 0;
    proof {
        assert(out@.map_values(|l: Vec<char>| l@) + lines_from(s@, 0) =~= lines_from(s@, 0));
    }
    while i < s.len()
        invariant
            i <= s@.len(),
            out@.map_values(|l: Vec<char>| l@) + lines_from(s@, i as int) == lines_from(s@, 0),
        decreases s@.len() - i,
    {
        let start = i;
        while i < s.len() && s[i] != '\n'
            invariant
                start <= i <= s@.len(),
                nl_from(s@, i as int) == nl_from(s@, start as int),
            decreases s@.len() - i,
        {
            i += 1;
        }
        proof {
            lemma_nl_from_bounds(s@, start as int);
        }
        let mut line: Vec<char> = Vec::new();
        let mut end = i;
        if i < s.len() && end > start && s[end - 1] == '\r' {
            end -= 1;
        }
        let mut k = start;
        while k < end
            invariant
                start <= k <= end <= s@.len(),
                line@ == s@.subrange(start as int, k as int),
            decreases end - k,
        {
            line.push(s[k]);
            k += 1;
            proof {
                assert(line@ =~= s@.subrange(start as int, k as int));
            }
        }
        let ghost before = out@.map_values(|l: Vec<char>| l@);
        let ghost lv = line@;
        out.push(line);
        proof {
            assert(out@.map_values(|l: Vec<char>| l@) =~= before.push(lv));
            if i < s@.len() {
                assert(lv =~= strip_cr(s@.subrange(start as int, i as int)));
                assert(lines_from(s@, start as int) =~= seq![lv] + lines_from(s@, i + 1));
            } else {
                assert(lines_from(s@, start as int) =~= seq![lv]);
                assert(lines_from(s@, i as int) =~= Seq::<Seq<char>>::empty());
            }
        }
        if i < s.len() {
            i += 1;
        }
        proof {
            assert(out@.map_values(|l: Vec<char>| l@) + lines_from(s@, i as int) =~= lines_from(s@, 0));
        }
    }
    proof {
        assert(out@.map_values(|l: Vec<char>| l@) =~= out@.map_values(|l: Vec<char>| l@) + lines_from(s@, i as int));
    }
    out
}

/// The lines `ls[lo..hi]` joined by line feeds.
fn join_range(ls: &Vec<Vec<char>>, lo: usize, hi: usize, Ghost(views): Ghost<Seq<Seq<char>>>) -> (r: Vec<char>)
    requires
        views == ls@.map_values(|l: Vec<char>| l@),
        lo <= hi <= ls@.len(),
    ensures
        r@ == join_lines(views.subrange(lo as int, hi as int)),
{
    let mut out: Vec<char> = Vec::new();
    let mut j = lo;
    proof {
        assert(views.subrange(lo as int, lo as int) =~= Seq::<Seq<char>>::empty());
    }
    while j < hi
        invariant
            views == ls@.map_values(|l: Vec<char>| l@),
            lo <= j <= hi <= ls@.len(),
            out@ == join_lines(views.subrange(lo as int, j as int)),
        decreases hi - j,
    {
        if j > lo {
            out.push('\n');
        }
        let line = &ls[j];
        let mut k: usize = 0;
        let ghost base = out@;
        while k < line.len()
            invariant
                k <= line@.len(),
                out@ == base + line@.take(k as int),
            decreases line@.len() - k,
        {
            out.push(line[k]);
            k += 1;
            proof {
                assert(out@ =~= base + line@.take(k as int));
            }
        }
        proof {
            assert(line@.take(k as int) =~= line@);
            let sub = views.subrange(lo as int, j + 1);
            assert(sub.drop_last() =~= views.subrange(lo as int, j as int));
            assert(sub.last() == line@);
            if j > lo {
                assert(out@ =~= join_lines(sub.drop_last()) + "\n"@ + sub.last()) by {
                    reveal_strlit("\n");
                }
            } else {
                assert(sub.len() == 1);
                assert(out@ =~= sub[0]);
            }
        }
        j += 1;
    }
    out
}

impl DBBlock {
    /// How many lines a block holds at most.
    pub const LINES_PER_BLOCK: usize = 25;

    /// The block number `idx` of the document `uri`, holding `content`; its record id is the
    /// document's path followed by the number. `uri` is a URI (longer than `i32::MAX` bytes
    /// is refused by the parser).
    pub fn new(uri: String, idx: usize, content: String) -> (r: Self)
        requires
            uri_parses(uri@),
            encode_utf8(uri@).len() <= i32::MAX,
        ensures
            r.record_id@ == uri_path_of(uri@) + decimal(idx as nat),
            r.uri == uri,
            r.idx == idx,
            r.content == content,
    {
        let mut record_id = match uri_path(uri.as_str()) {
            Some(p) => p,
            None => String::new(),
        };
        push_decimal(&mut record_id, idx);
        DBBlock { record_id, uri, idx, content }
    }

    /// The blocks of the document `uri` as `from_tokens` cuts them, when `uri` parses as a URI;
    /// `None` otherwise.
    pub fn try_from_tokens(tokens: &TokenVec, uri: &String) -> (r: Option<Vec<DBBlock>>)
        requires
            encode_utf8(uri@).len() <= i32::MAX,
        ensures
            r is Some <==> uri_parses(uri@),
            r matches Some(v) ==> v@.len() == chunks_from(lines_from(blocks_text(tokens@.0), 0), 0).len()
                && forall|t: int|
                0 <= t < v@.len() ==> (#[trigger] v@[t]).uri@ == uri@ && v@[t].idx == t
                    && v@[t].content@ == chunks_from(lines_from(blocks_text(tokens@.0), 0), 0)[t]
                    && v@[t].record_id@ == uri_path_of(uri@) + decimal(t as nat),
    {
        if parse_uri(uri.as_str()) {
            Some(Self::from_tokens(tokens, uri))
        } else {
            None
        }
    }

    /// The blocks of a document: the text of its block tokens cut into lines, and the lines
    /// cut into blocks of 25, up to the first block that holds only whitespace.
    pub fn from_tokens(tokens: &TokenVec, uri: &String) -> (r: Vec<DBBlock>)
        requires
            uri_parses(uri@),
            encode_utf8(uri@).len() <= i32::MAX,
        ensures
            r@.len() == chunks_from(lines_from(blocks_text(tokens@.0), 0), 0).len(),
            forall|t: int|
                0 <= t < r@.len() ==> (#[trigger] r@[t]).uri@ == uri@ && r@[t].idx == t
                    && r@[t].content@ == chunks_from(lines_from(blocks_text(tokens@.0), 0), 0)[t]
                    && r@[t].record_id@ == uri_path_of(uri@) + decimal(t as nat),
    {
        let whole = tokens.to_string();
        let text = chars_of(whole.as_str());
        let lines = split_lines(&text);
        let ghost ls = lines_from(text@, 0);
        let ghost all = chunks_from(ls, 0);
        let n = lines.len();
        let mut all_blocks: Vec<DBBlock> = Vec::new();
        let mut chunks_taken: usize = 0;
        let mut start: usize = 0;
        proof {
            assert(all.skip(0) =~= all);
        }
        loop
            invariant
                ls == lines@.map_values(|l: Vec<char>| l@),
                ls == lines_from(blocks_text(tokens@.0), 0),
                all == chunks_from(ls, 0),
                n == ls.len(),
                start <= n,
                start == if 25 * chunks_taken <= n { 25 * chunks_taken } else { n as int },
                chunks_taken <= n + 1,
                uri_parses(uri@),
                encode_utf8(uri@).len() <= i32::MAX,
                all_blocks@.len() == chunks_taken,
                all.len() >= chunks_taken,
                all.skip(chunks_taken as int) == chunks_from(ls, chunks_taken as nat),
                forall|t: int|
                    0 <= t < all_blocks@.len() ==> (#[trigger] all_blocks@[t]).uri@ == uri@
                        && all_blocks@[t].idx == t && all_blocks@[t].content@ == all[t]
                        && all_blocks@[t].record_id@ == uri_path_of(uri@) + decimal(t as nat),
            ensures
                all_blocks@.len() == all.len(),
                forall|t: int|
                    0 <= t < all_blocks@.len() ==> (#[trigger] all_blocks@[t]).uri@ == uri@
                        && all_blocks@[t].idx == t && all_blocks@[t].content@ == all[t]
                        && all_blocks@[t].record_id@ == uri_path_of(uri@) + decimal(t as nat),
            decreases n + 1 - chunks_taken,
        {
            let hi = if n - start > 25 { start + 25 } else { n };
            let content_chars = join_range(&lines, start, hi, Ghost(ls));
            proof {
                lemma_trim_empty_iff_blank(content_chars@);
                assert(content_chars@ == chunk(ls, chunks_taken as int));
            }
            if start >= n || is_blank(&content_chars) {
                proof {
                    assert(chunks_from(ls, chunks_taken as nat) == Seq::<Seq<char>>::empty());
                    assert(all.skip(chunks_taken as int).len() == 0);
                }
                break;
            }
            let content = crate::text::string_from_chars(&content_chars);
            let ghost rest = chunks_from(ls, chunks_taken as nat);
            proof {
                assert(rest == seq![chunk(ls, chunks_taken as int)] + chunks_from(ls, (chunks_taken + 1) as nat));
                assert(all.skip(chunks_taken as int)[0] == all[chunks_taken as int]);
                assert(all[chunks_taken as int] == chunk(ls, chunks_taken as int));
                assert(all.skip(chunks_taken + 1) =~= all.skip(chunks_taken as int).drop_first());
            }
            all_blocks.push(DBBlock::new(uri.clone(), chunks_taken, content));
            chunks_taken += 1;
            start = hi;
        }
        all_blocks
    }
}

} // verus!
