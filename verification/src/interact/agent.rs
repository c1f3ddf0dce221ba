//! Agent interacts: `+<agent>` pushes the following block to an agent, `@<agent> prompt`
//! prompts it.
use crate::agents::{agent_of_char, AgentID, AgentIDView};
use crate::interact::InteractError;
use crate::position::{Diagnostic, DiagnosticSeverity, Range};
use crate::text::{chars_of, is_ws, lemma_trim_end_is_prefix, lemma_trim_span, trim, trim_bounds, trim_end, trim_start};
use crate::tokens::{Token, TokenVec, TokenView};
use vstd::prelude::*;
use vstd::string::StringExecFns;

verus! {

/// What an agent interact asks of its agent.
#[derive(Debug, PartialEq, Eq)]
pub enum AgentInteractVar {
    /// The block to lock into the agent's context.
    Push(Option<String>),
    /// The user's prompt.
    Prompt(Option<String>),
}

/// The mathematical value of an agent interact's request.
pub enum AgentInteractVarView {
    Push(Option<Seq<char>>),
    Prompt(Option<Seq<char>>),
}

/// The view of an optional string.
pub open spec fn opt_view(o: Option<String>) -> Option<Seq<char>> {
    match o {
        Some(s) => Some(s@),
        None => None,
    }
}

impl View for AgentInteractVar {
    type V = AgentInteractVarView;

    open spec fn view(&self) -> AgentInteractVarView {
        match self {
            AgentInteractVar::Push(b) => AgentInteractVarView::Push(opt_view(*b)),
            AgentInteractVar::Prompt(p) => AgentInteractVarView::Prompt(opt_view(*p)),
        }
    }
}

/// An agent interact found in a comment.
#[derive(Debug, PartialEq, Eq)]
pub struct AgentInteract {
    pub range: Range,
    pub agent_id: AgentID,
    pub var: AgentInteractVar,
}

/// The mathematical value of an agent interact.
pub struct AgentInteractView {
    pub range: Range,
    pub agent_id: AgentIDView,
    pub var: AgentInteractVarView,
}

impl View for AgentInteract {
    type V = AgentInteractView;

    open spec fn view(&self) -> AgentInteractView {
        AgentInteractView { range: self.range, agent_id: self.agent_id@, var: self.var@ }
    }
}

/// A comment whose trimmed content is a lone `+` or `@`: it names no agent.
pub open spec fn lacks_agent_id(tok: TokenView) -> bool {
    match tok {
        TokenView::Comment(c, _) => trim(c).len() == 1 && (trim(c)[0] == '+' || trim(c)[0] == '@'),
        _ => false,
    }
}

/// The block that follows position `idx` of `toks`, if the next token is one.
pub open spec fn block_after(toks: Seq<TokenView>, idx: int) -> Option<Seq<char>> {
    if 0 <= idx + 1 < toks.len() {
        match toks[idx + 1] {
            TokenView::Block(b) => Some(b),
            _ => None,
        }
    } else {
        None
    }
}

/// The agent interact that token `tok` at position `idx` of `toks` holds: its trimmed comment
/// starts with `+` or `@` and the next character names the agent; a push carries the block
/// after the comment, a prompt the trimmed rest of the comment (when not empty).
pub open spec fn agent_interact_of(toks: Seq<TokenView>, tok: TokenView, idx: int) -> Result<
    AgentInteractView,
    InteractError,
> {
    match tok {
        TokenView::Comment(c, range) => {
            let t = trim(c);
            if t.len() == 0 {
                Err(InteractError::EmptyContent)
            } else if t[0] == '+' {
                Ok(
                    AgentInteractView {
                        range,
                        agent_id: agent_of_char(t[1]),
                        var: AgentInteractVarView::Push(block_after(toks, idx)),
                    },
                )
            } else if t[0] == '@' {
                let prompt = trim(t.skip(2));
                Ok(
                    AgentInteractView {
                        range,
                        agent_id: agent_of_char(t[1]),
                        var: AgentInteractVarView::Prompt(
                            if prompt.len() == 0 {
                                None
                            } else {
                                Some(prompt)
                            },
                        ),
                    },
                )
            } else {
                Err(InteractError::InvalidCommand(t[0]))
            }
        },
        _ => Err(InteractError::WrongTokenVariant),
    }
}

/// A prompt keeps the whole text after the command and the agent, every word of it: for a
/// comment made of whitespace, `@`, the agent's character at `k + 1` and then a rest whose
/// text between its leading and trailing whitespace runs from `k + 2 + a` to `k + 2 + b`, the
/// interact prompts the agent that character names with that text, or with nothing when it
/// is empty.
pub proof fn lemma_prompt_is_trimmed_rest(
    toks: Seq<TokenView>,
    c: Seq<char>,
    range: Range,
    idx: int,
    k: int,
    a: int,
    b: int,
)
    requires
        !lacks_agent_id(TokenView::Comment(c, range)),
        0 <= k,
        k + 2 <= c.len(),
        forall|i: int| 0 <= i < k ==> is_ws(#[trigger] c[i]),
        c[k] == '@',
        0 <= a <= b <= c.len() - (k + 2),
        forall|i: int| k + 2 <= i < k + 2 + a ==> is_ws(#[trigger] c[i]),
        forall|i: int| k + 2 + b <= i < c.len() ==> is_ws(#[trigger] c[i]),
        a < b ==> !is_ws(c[k + 2 + a]) && !is_ws(c[k + 1 + b]),
    ensures
        agent_interact_of(toks, TokenView::Comment(c, range), idx) == Ok::<
            AgentInteractView,
            InteractError,
        >(
            AgentInteractView {
                range,
                agent_id: agent_of_char(c[k + 1]),
                var: AgentInteractVarView::Prompt(
                    if a == b {
                        None
                    } else {
                        Some(c.subrange(k + 2 + a, k + 2 + b))
                    },
                ),
            },
        ),
{
    assert(c.skip(0) =~= c);
    crate::text::lemma_trim_start_skip(c, 0, k);
    let s1 = c.skip(k);
    assert(trim_start(c) == s1);
    lemma_trim_end_is_prefix(s1);
    let t = trim_end(s1);
    let m = t.len() as int;
    assert(trim(c) == t);
    assert(s1[0] == '@');
    assert(m >= 1) by {
        if m == 0 {
            assert(is_ws(s1[0]));
        }
    }
    assert(t[0] == s1[0]);
    assert(m >= 2);
    assert(t[1] == c[k + 1]);
    let v = c.skip(k + 2);
    assert(t.skip(2) =~= v.take(m - 2));
    let w = v.take(m - 2);
    if a < b {
        assert(b <= m - 2) by {
            if b > m - 2 {
                assert(s1[b + 1] == c[k + 1 + b]);
            }
        }
        assert forall|i: int| 0 <= i < a implies is_ws(#[trigger] w[i]) by {
            assert(w[i] == c[k + 2 + i]);
        }
        assert forall|i: int| b <= i < w.len() implies is_ws(#[trigger] w[i]) by {
            assert(w[i] == c[k + 2 + i]);
        }
        assert(w[a] == c[k + 2 + a]);
        assert(w[b - 1] == c[k + 1 + b]);
        lemma_trim_span(w, a, b);
        assert(w.subrange(a, b) =~= c.subrange(k + 2 + a, k + 2 + b));
    } else {
        assert forall|i: int| 0 <= i < w.len() implies is_ws(#[trigger] w[i]) by {
            assert(w[i] == c[k + 2 + i]);
            assert(s1[i + 2] == c[k + 2 + i]);
        }
        lemma_trim_span(w, 0, 0);
    }
}

/// A push names the agent of the character after `+` and carries the block that follows the
/// comment: for a comment made of whitespace, `+` and the agent's character at `k + 1`, the
/// interact pushes to that agent the next token when it is a block, and nothing otherwise.
pub proof fn lemma_push_carries_next_block(toks: Seq<TokenView>, c: Seq<char>, range: Range, idx: int, k: int)
    requires
        !lacks_agent_id(TokenView::Comment(c, range)),
        0 <= k,
        k + 1 < c.len(),
        forall|i: int| 0 <= i < k ==> is_ws(#[trigger] c[i]),
        c[k] == '+',
    ensures
        agent_interact_of(toks, TokenView::Comment(c, range), idx) == Ok::<
            AgentInteractView,
            InteractError,
        >(
            AgentInteractView {
                range,
                agent_id: agent_of_char(c[k + 1]),
                var: AgentInteractVarView::Push(
                    if 0 <= idx + 1 < toks.len() && toks[idx + 1] is Block {
                        Some(toks[idx + 1]->Block_0)
                    } else {
                        None
                    },
                ),
            },
        ),
{
    assert(c.skip(0) =~= c);
    crate::text::lemma_trim_start_skip(c, 0, k);
    let s1 = c.skip(k);
    lemma_trim_end_is_prefix(s1);
    let t = trim_end(s1);
    let m = t.len() as int;
    assert(trim(c) == t);
    assert(s1[0] == '+');
    assert(m >= 1) by {
        if m == 0 {
            assert(is_ws(s1[0]));
        }
    }
    assert(t[0] == s1[0]);
    assert(m >= 2);
    assert(t[1] == c[k + 1]);
}

/// A comment holds no agent interact when it is all whitespace (its content is empty), or
/// when its first character that is not whitespace, at `k`, is neither `+` nor `@` (that
/// character is an invalid command).
pub proof fn lemma_agent_interact_errors(toks: Seq<TokenView>, c: Seq<char>, range: Range, idx: int, k: int)
    requires
        0 <= k <= c.len(),
        forall|i: int| 0 <= i < k ==> is_ws(#[trigger] c[i]),
        k < c.len() ==> !is_ws(c[k]),
    ensures
        k == c.len() ==> agent_interact_of(toks, TokenView::Comment(c, range), idx) == Err::<
            AgentInteractView,
            InteractError,
        >(InteractError::EmptyContent),
        k < c.len() && c[k] != '+' && c[k] != '@' ==> agent_interact_of(
            toks,
            TokenView::Comment(c, range),
            idx,
        ) == Err::<AgentInteractView, InteractError>(InteractError::InvalidCommand(c[k])),
{
    assert(c.skip(0) =~= c);
    crate::text::lemma_trim_start_skip(c, 0, k);
    let s1 = c.skip(k);
    lemma_trim_end_is_prefix(s1);
    let t = trim_end(s1);
    let m = t.len() as int;
    assert(trim(c) == t);
    if k < c.len() {
        assert(m >= 1) by {
            if m == 0 {
                assert(is_ws(s1[0]));
            }
        }
        assert(t[0] == s1[0]);
    }
}

impl AgentInteract {
    /// The command character of a push.
    pub const PUSH: char = '+';
    /// The command character of a prompt.
    pub const PROMPT: char = '@';

    /// The agent interact held by token `tok`, which stands at position `idx` of `toks`.
    pub fn try_from(toks: &TokenVec, tok: &Token, idx: usize) -> (r: Result<Self, InteractError>)
        requires
            !lacks_agent_id(tok@),
        ensures
            match agent_interact_of(toks@.0, tok@, idx as int) {
                Ok(v) => (r matches Ok(a) && a@ == v),
                Err(e) => r == Err::<Self, InteractError>(e),
            },
    {
        match tok {
            Token::Comment(parsed) => {
                let v = chars_of(parsed.content.as_str());
                let (a, b) = trim_bounds(&v);
                let ghost t = v@.subrange(a as int, b as int);
                if a == b {
                    return Err(InteractError::EmptyContent);
                }
                let first = v[a];
                if first == Self::PUSH {
                    let agent_id = AgentID::from_char(v[a + 1]);
                    let n = toks.len();
                    let block = if idx < usize::MAX && idx + 1 < n {
                        match toks.get(idx + 1) {
                            Some(Token::Block(block)) => Some(block.clone()),
                            _ => None,
                        }
                    } else {
                        None
                    };
                    proof {
                        if idx == usize::MAX {
                            assert(idx + 1 >= toks@.0.len());
                        }
                    }
                    Ok(Self { range: parsed.range, agent_id, var: AgentInteractVar::Push(block) })
                } else if first == Self::PROMPT {
                    let agent_id = AgentID::from_char(v[a + 1]);
                    let rest = crate::text::string_from_range(&v, a + 2, b);
                    let rv = chars_of(rest.as_str());
                    let (c, d) = trim_bounds(&rv);
                    proof {
                        assert(rest@ =~= t.skip(2));
                    }
                    let prompt = if c == d {
                        None
                    } else {
                        Some(crate::text::string_from_range(&rv, c, d))
                    };
                    Ok(Self { range: parsed.range, agent_id, var: AgentInteractVar::Prompt(prompt) })
                } else {
                    Err(InteractError::InvalidCommand(first))
                }
            },
            _ => Err(InteractError::WrongTokenVariant),
        }
    }

    /// The hint shown over the interact: `Push` or `Prompt`.
    pub fn diagnostics(&self) -> (r: Vec<Diagnostic>)
        ensures
            r@.len() == 1,
            r@[0].range == self.range,
            r@[0].severity == Some(DiagnosticSeverity::Hint),
            r@[0].message@ == match self.var@ {
                AgentInteractVarView::Push(_) => "Push"@,
                AgentInteractVarView::Prompt(_) => "Prompt"@,
            },
    {
        let message = match self.var {
            AgentInteractVar::Push(_) => String::from_str("Push"),
            AgentInteractVar::Prompt(_) => String::from_str("Prompt"),
        };
        let mut all_diagnostics = Vec::new();
        all_diagnostics.push(
            Diagnostic { range: self.range, severity: Some(DiagnosticSeverity::Hint), message },
        );
        all_diagnostics
    }
}

} // verus!
