//! The tokens a document is lexed into: comments, code blocks and markers.
use crate::diff::DiffItem;
use crate::position::{pos_in_range, range_contains, Position, Range};
use vstd::prelude::*;
use vstd::string::StringExecFns;

verus! {

/// A comment of a document, with the range it covers.
#[derive(Debug, Clone, PartialEq, Eq)]
pub struct ParsedComment {
    pub content: String,
    pub range: Range,
}

impl ParsedComment {
    /// A comment holding `content` over `range`.
    pub fn new(content: &str, range: Range) -> (r: Self)
        ensures
            r.content@ == content@,
            r.range == range,
    {
        ParsedComment { content: String::from_str(content), range }
    }

    /// A copy of the comment.
    pub fn duplicate(&self) -> (r: Self)
        ensures
            r.content@ == self.content@,
            r.range == self.range,
    {
        ParsedComment { content: self.content.clone(), range: self.range }
    }
}

/// A token of a document: a comment, a block of code, or a marker.
#[derive(Debug, Clone, PartialEq, Eq)]
pub enum Token {
    CommentStr,
    Comment(ParsedComment),
    Block(String),
    End,
}

/// The mathematical value of a token: its kind with the characters and range it holds.
pub enum TokenView {
    CommentStr,
    Comment(Seq<char>, Range),
    Block(Seq<char>),
    End,
}

impl View for Token {
    type V = TokenView;

    open spec fn view(&self) -> TokenView {
        match self {
            Token::CommentStr => TokenView::CommentStr,
            Token::Comment(c) => TokenView::Comment(c.content@, c.range),
            Token::Block(b) => TokenView::Block(b@),
            Token::End => TokenView::End,
        }
    }
}

impl DiffItem for Token {
    fn same(&self, other: &Self) -> (r: bool) {
        match self {
            Token::CommentStr => match other {
                Token::CommentStr => true,
                _ => false,
            },
            Token::End => match other {
                Token::End => true,
                _ => false,
            },
            Token::Block(a) => match other {
                Token::Block(b) => *a == *b,
                _ => false,
            },
            Token::Comment(a) => match other {
                Token::Comment(b) => {
                    let same_content = a.content == b.content;
                    let same_range = a.range == b.range;
                    same_content && same_range
                },
                _ => false,
            },
        }
    }

    fn duplicate(&self) -> (r: Self) {
        match self {
            Token::CommentStr => Token::CommentStr,
            Token::Comment(c) => Token::Comment(c.duplicate()),
            Token::Block(b) => Token::Block(b.clone()),
            Token::End => Token::End,
        }
    }
}

impl Token {
    /// Names only the kind of the token.
    pub fn variant_display(&self) -> (r: &str)
        ensures
            r@ == (match self@ {
                TokenView::End => "End"@,
                TokenView::CommentStr => "CommentStr"@,
                TokenView::Block(_) => "Block(String)"@,
                TokenView::Comment(_, _) => "Comment(ParsedComment)"@,
            }),
    {
        match self {
            Token::End => "End",
            Token::CommentStr => "CommentStr",
            Token::Block(_) => "Block(String)",
            Token::Comment(_) => "Comment(ParsedComment)",
        }
    }
}

/// The text of the blocks of `toks`, in order; comments and markers contribute nothing.
pub open spec fn blocks_text(toks: Seq<TokenView>) -> Seq<char>
    decreases toks.len(),
{
    if toks.len() == 0 {
        Seq::empty()
    } else {
        blocks_text(toks.drop_last()) + match toks.last() {
            TokenView::Block(b) => b,
            _ => Seq::empty(),
        }
    }
}

/// `idx` points at a comment of `toks`.
pub open spec fn is_comment_at(toks: Seq<TokenView>, idx: int) -> bool {
    0 <= idx < toks.len() && toks[idx] is Comment
}

/// The tokens of a document, with the positions of its comments.
pub struct TokenVec {
    vec: Vec<Token>,
    comment_indices: Vec<usize>,
}

impl View for TokenVec {
    type V = (Seq<TokenView>, Seq<usize>);

    closed spec fn view(&self) -> (Seq<TokenView>, Seq<usize>) {
        (self.vec@.map_values(|t: Token| t@), self.comment_indices@)
    }
}

/// Every listed comment position points at a comment.
pub open spec fn indices_point_at_comments(toks: Seq<TokenView>, indices: Seq<usize>) -> bool {
    forall|t: int| 0 <= t < indices.len() ==> is_comment_at(toks, #[trigger] indices[t] as int)
}

/// The first listed comment whose range contains `pos`, with its position.
pub open spec fn comment_in_position_spec(toks: Seq<TokenView>, indices: Seq<usize>, pos: Position) -> Option<(Seq<char>, Range, usize)>
    decreases indices.len(),
{
    if indices.len() == 0 {
        None
    } else {
        let idx = indices[0] as int;
        let found = if 0 <= idx < toks.len() {
            match toks[idx] {
                TokenView::Comment(c, r) => if range_contains(r, pos) {
                    Some((c, r, indices[0]))
                } else {
                    None
                },
                _ => None,
            }
        } else {
            None
        };
        if found is Some {
            found
        } else {
            comment_in_position_spec(toks, indices.drop_first(), pos)
        }
    }
}

/// The comment found at a position holds that position: its range starts at or before it and
/// ends at or after it, lines compared first and characters on the same line. It is the first
/// listed comment that does so; when none is found, no listed comment holds the position.
pub proof fn lemma_comment_in_position_holds_position(toks: Seq<TokenView>, indices: Seq<usize>, pos: Position)
    ensures
        comment_in_position_spec(toks, indices, pos) matches Some((c, r, i)) ==> exists|t: int|
            0 <= t < indices.len() && #[trigger] indices[t] == i && (i as int) < toks.len()
                && toks[i as int] == TokenView::Comment(c, r) && (r.start.line < pos.line || (
            r.start.line == pos.line && r.start.character <= pos.character)) && (pos.line
                < r.end.line || (pos.line == r.end.line && pos.character <= r.end.character))
                && forall|u: int|
                0 <= u < t && (#[trigger] indices[u] as int) < toks.len() ==> !(toks[indices[u] as int] matches TokenView::Comment(_, q) && (q.start.line < pos.line || (
                    q.start.line == pos.line && q.start.character <= pos.character)) && (pos.line
                    < q.end.line || (pos.line == q.end.line && pos.character <= q.end.character))),
        comment_in_position_spec(toks, indices, pos) is None ==> forall|u: int|
            0 <= u < indices.len() && (#[trigger] indices[u] as int) < toks.len() ==> !(toks[indices[u] as int] matches TokenView::Comment(_, q) && (q.start.line < pos.line || (
                q.start.line == pos.line && q.start.character <= pos.character)) && (pos.line
                < q.end.line || (pos.line == q.end.line && pos.character <= q.end.character))),
    decreases indices.len(),
{
    if indices.len() > 0 {
        let rest = indices.drop_first();
        lemma_comment_in_position_holds_position(toks, rest, pos);
        assert forall|u: int| 1 <= u < indices.len() implies indices[u] == rest[u - 1] by {}
        let idx = indices[0] as int;
        let holds = 0 <= idx < toks.len() && (toks[idx] matches TokenView::Comment(_, q) && range_contains(q, pos));
        if holds {
            assert(indices[0] == indices[0]);
        } else if comment_in_position_spec(toks, rest, pos) is None {
            assert forall|u: int|
                0 <= u < indices.len() && (#[trigger] indices[u] as int) < toks.len() implies !(toks[indices[u] as int] matches TokenView::Comment(_, q) && (q.start.line < pos.line || (
                    q.start.line == pos.line && q.start.character <= pos.character)) && (pos.line
                    < q.end.line || (pos.line == q.end.line && pos.character <= q.end.character))) by {
                if u > 0 {
                    assert(indices[u] == rest[u - 1]);
                }
            }
        } else {
            let (c, r, i) = comment_in_position_spec(toks, rest, pos)->0;
            let t = choose|t: int|
                0 <= t < rest.len() && #[trigger] rest[t] == i && (i as int) < toks.len()
                    && toks[i as int] == TokenView::Comment(c, r) && (r.start.line < pos.line || (
                r.start.line == pos.line && r.start.character <= pos.character)) && (pos.line
                    < r.end.line || (pos.line == r.end.line && pos.character <= r.end.character))
                    && forall|u: int|
                    0 <= u < t && (#[trigger] rest[u] as int) < toks.len() ==> !(toks[rest[u] as int] matches TokenView::Comment(_, q) && (q.start.line < pos.line || (
                        q.start.line == pos.line && q.start.character <= pos.character)) && (pos.line
                        < q.end.line || (pos.line == q.end.line && pos.character <= q.end.character)));
            assert(indices[t + 1] == rest[t]);
            assert forall|u: int|
                0 <= u < t + 1 && (#[trigger] indices[u] as int) < toks.len() implies !(toks[indices[u] as int] matches TokenView::Comment(_, q) && (q.start.line < pos.line || (
                    q.start.line == pos.line && q.start.character <= pos.character)) && (pos.line
                    < q.end.line || (pos.line == q.end.line && pos.character <= q.end.character))) by {
                if u > 0 {
                    assert(indices[u] == rest[u - 1]);
                }
            }
        }
    }
}

impl TokenVec {
    #[verifier::type_invariant]
    closed spec fn inv(self) -> bool {
        indices_point_at_comments(self@.0, self@.1)
    }

    /// The tokens of a document with the positions of its comments; every position must hold
    /// a comment.
    pub fn new(vec: Vec<Token>, comment_indices: Vec<usize>) -> (r: Self)
        requires
            indices_point_at_comments(vec@.map_values(|t: Token| t@), comment_indices@),
        ensures
            r@.0 == vec@.map_values(|t: Token| t@),
            r@.1 == comment_indices@,
    {
        TokenVec { vec, comment_indices }
    }

    /// The tokens, in order.
    pub fn as_ref(&self) -> (r: &Vec<Token>)
        ensures
            r@.map_values(|t: Token| t@) == self@.0,
    {
        &self.vec
    }

    /// The positions of the comments; each one holds a comment.
    pub fn comment_indices(&self) -> (r: &Vec<usize>)
        ensures
            r@ == self@.1,
            indices_point_at_comments(self@.0, r@),
    {
        proof {
            use_type_invariant(self);
        }
        &self.comment_indices
    }

    /// The number of tokens.
    pub fn len(&self) -> (r: usize)
        ensures
            r == self@.0.len(),
    {
        self.vec.len()
    }

    /// The token at position `idx`, if there is one.
    pub fn get(&self, idx: usize) -> (r: Option<&Token>)
        ensures
            idx < self@.0.len() ==> (r matches Some(t) && t@ == self@.0[idx as int]),
            idx >= self@.0.len() ==> r is None,
    {
        if idx < self.vec.len() {
            Some(&self.vec[idx])
        } else {
            None
        }
    }

    /// The comment, in the order of the comment positions, whose range contains `pos`.
    pub fn comment_in_position(&self, pos: &Position) -> (r: Option<(&ParsedComment, usize)>)
        ensures
            match comment_in_position_spec(self@.0, self@.1, *pos) {
                None => r is None,
                Some((c, range, idx)) => (r matches Some((pc, i)) && pc.content@ == c && pc.range
                    == range && i == idx),
            },
    {
        let mut t: usize = 0;
        proof {
            assert(self@.1.skip(0) =~= self@.1);
        }
        while t < self.comment_indices.len()
            invariant
                t <= self@.1.len(),
                comment_in_position_spec(self@.0, self@.1, *pos) == comment_in_position_spec(
                    self@.0,
                    self@.1.skip(t as int),
                    *pos,
                ),
            decreases self@.1.len() - t,
        {
            let ghost rest = self@.1.skip(t as int);
            proof {
                assert(rest.drop_first() =~= self@.1.skip(t + 1));
                assert(rest[0] == self@.1[t as int]);
            }
            let idx = self.comment_indices[t];
            if idx < self.vec.len() {
                if let Token::Comment(c) = &self.vec[idx] {
                    if pos_in_range(&c.range, pos) {
                        return Some((c, idx));
                    }
                }
            }
            t += 1;
        }
        None
    }

    /// The text of the blocks, in order.
    pub fn to_string(&self) -> (r: String)
        ensures
            r@ == blocks_text(self@.0),
    {
        let mut buffer = String::new();
        let mut i: usize = 0;
        while i < self.vec.len()
            invariant
                i <= self@.0.len(),
                buffer@ == blocks_text(self@.0.take(i as int)),
            decreases self@.0.len() - i,
        {
            proof {
                assert(self@.0.take(i + 1).drop_last() =~= self@.0.take(i as int));
            }
            if let Token::Block(s) = &self.vec[i] {
                buffer.append(s.as_str());
            }
            i += 1;
            proof {
                assert(buffer@ =~= blocks_text(self@.0.take(i as int)));
            }
        }
        proof {
            assert(self@.0.take(i as int) =~= self@.0);
        }
        buffer
    }

    /// The listed comments with their positions, in the order of the list.
    pub fn comments(&self) -> (r: Vec<(usize, ParsedComment)>)
        ensures
            r@.len() == self@.1.len(),
            forall|t: int|
                0 <= t < r@.len() ==> (#[trigger] r@[t]).0 == self@.1[t] && self@.0[r@[t].0 as int]
                    == TokenView::Comment(r@[t].1.content@, r@[t].1.range),
    {
        proof {
            use_type_invariant(self);
        }
        let mut out: Vec<(usize, ParsedComment)> = Vec::new();
        let mut t: usize = 0;
        while t < self.comment_indices.len()
            invariant
                t <= self@.1.len(),
                indices_point_at_comments(self@.0, self@.1),
                out@.len() == t,
                forall|u: int|
                    0 <= u < t ==> (#[trigger] out@[u]).0 == self@.1[u] && self@.0[out@[u].0 as int]
                        == TokenView::Comment(out@[u].1.content@, out@[u].1.range),
            decreases self@.1.len() - t,
        {
            let idx = self.comment_indices[t];
            proof {
                assert(is_comment_at(self@.0, self@.1[t as int] as int));
            }
            if let Token::Comment(c) = &self.vec[idx] {
                out.push((idx, c.duplicate()));
            }
            t += 1;
        }
        out
    }
}

} // verus!
