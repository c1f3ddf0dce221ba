//! Which agents learn which code after an edit: a push interact (`+a`) hands the block of code
//! that follows it to its agent, and when an edit changes that block the agent gets the new one.
use crate::diff::{diff_views, Diff};
use crate::interact::logic::{
    interact_of_str, AgentInteract, Interact, InteractArg, InteractArgView, InteractVar,
};
use crate::tokens::{Token, TokenVec, TokenView};
use vstd::prelude::*;

verus! {

/// The agent character named by a comment whose text `c` is a push interact: its first
/// argument, when that is a single character.
pub open spec fn push_agent_of(c: Seq<char>) -> Option<char> {
    match interact_of_str(c) {
        Some((InteractVar::Agent(AgentInteract::Push), args)) => if args.len() > 0 {
            match args[0] {
                InteractArgView::Char(ch) => Some(ch),
                _ => None,
            }
        } else {
            None
        },
        _ => None,
    }
}

/// A push interact in comment text `c` names its agent by a character.
pub open spec fn push_names_agent(c: Seq<char>) -> bool {
    (interact_of_str(c) matches Some((InteractVar::Agent(AgentInteract::Push), _)))
        ==> push_agent_of(c) is Some
}

/// Every listed comment of `toks` that is a push interact names its agent by a character.
pub open spec fn pushes_name_agents(toks: Seq<TokenView>, indices: Seq<usize>) -> bool {
    forall|t: int|
        0 <= t < indices.len() ==> match #[trigger] toks[indices[t] as int] {
            TokenView::Comment(c, _) => push_names_agent(c),
            _ => true,
        }
}

/// For the listed comments of the old tokens in turn, each push interact whose position plus
/// one indexes a change to a block in the edit script, with that block: the agent character
/// and the new code.
pub open spec fn push_updates_spec(
    toks: Seq<TokenView>,
    indices: Seq<usize>,
    script: Seq<Diff<TokenView>>,
) -> Seq<(char, Seq<char>)>
    decreases indices.len(),
{
    if indices.len() == 0 {
        Seq::empty()
    } else {
        let rest = push_updates_spec(toks, indices.drop_last(), script);
        let i = indices.last() as int;
        match toks[i] {
            TokenView::Comment(c, _) => match push_agent_of(c) {
                Some(ch) => if 0 <= i + 1 < script.len() {
                    match script[i + 1] {
                        Diff::Change(_, TokenView::Block(b)) => rest.push((ch, b)),
                        _ => rest,
                    }
                } else {
                    rest
                },
                None => rest,
            },
            _ => rest,
        }
    }
}

/// The agent updates an edit brings: for each push interact among the old tokens' comments
/// (in the order they are listed), when the entry after its position in the edit script
/// changes a block, the agent it names gets that block. The agent is given by its character;
/// every push interact must name one.
pub fn push_updates(old: &TokenVec, script: &Vec<Diff<Token>>) -> (r: Vec<(char, String)>)
    requires
        pushes_name_agents(old@.0, old@.1),
    ensures
        r@.map_values(|p: (char, String)| (p.0, p.1@)) == push_updates_spec(
            old@.0,
            old@.1,
            diff_views(script@),
        ),
{
    let indices = old.comment_indices();
    let ghost toks = old@.0;
    let ghost sv = diff_views(script@);
    let mut out: Vec<(char, String)> = Vec::new();
    let mut t: usize = 0;
    while t < indices.len()
        invariant
            toks == old@.0,
            sv == diff_views(script@),
            indices@ == old@.1,
            t <= indices@.len(),
            crate::tokens::indices_point_at_comments(toks, indices@),
            pushes_name_agents(toks, indices@),
            out@.map_values(|p: (char, String)| (p.0, p.1@)) == push_updates_spec(
                toks,
                indices@.take(t as int),
                sv,
            ),
        decreases indices@.len() - t,
    {
        let idx = indices[t];
        let ghost before = out@.map_values(|p: (char, String)| (p.0, p.1@));
        proof {
            assert(indices@.take(t + 1).drop_last() =~= indices@.take(t as int));
            assert(indices@.take(t + 1).last() == indices@[t as int]);
            assert(crate::tokens::is_comment_at(toks, indices@[t as int] as int));
        }
        if let Some(Token::Comment(c)) = old.get(idx) {
            let ghost cv = c.content@;
            proof {
                assert(toks[idx as int] == TokenView::Comment(cv, c.range));
                assert(push_names_agent(cv));
            }
            if let Some(interact) = Interact::try_from_str(c.content.as_str()) {
                if interact.variant == InteractVar::Agent(AgentInteract::Push) {
                    proof {
                        assert(interact.parsed_args@.len() > 0);
                        assert(interact.parsed_args@[0]@ == crate::interact::logic::arg_views(
                            interact.parsed_args@,
                        )[0]);
                    }
                    let ch = match &interact.parsed_args[0] {
                        InteractArg::Char(ch) => *ch,
                        InteractArg::String(_) => {
                            proof {
                                assert(false);
                            }
                            ' '
                        },
                    };
                    if script.len() > 0 && idx < script.len() - 1 {
                        proof {
                            assert(sv[idx + 1] == script@[idx + 1]@);
                        }
                        if let Diff::Change(_, Token::Block(b)) = &script[idx + 1] {
                            let ghost bv = b@;
                            out.push((ch, b.clone()));
                            proof {
                                assert(out@.map_values(|p: (char, String)| (p.0, p.1@)) =~= before.push((ch, bv)));
                            }
                        }
                    }
                }
            }
        }
        t += 1;
    }
    proof {
        assert(indices@.take(t as int) =~= indices@);
    }
    out
}

/// Whether every push interact among the listed comments of `old` names its agent by a
/// character, as `push_updates` requires.
pub fn push_interacts_name_agents(old: &TokenVec) -> (r: bool)
    ensures
        r == pushes_name_agents(old@.0, old@.1),
{
    let indices = old.comment_indices();
    let ghost toks = old@.0;
    let mut t: usize = 0;
    while t < indices.len()
        invariant
            toks == old@.0,
            indices@ == old@.1,
            t <= indices@.len(),
            crate::tokens::indices_point_at_comments(toks, indices@),
            forall|u: int|
                0 <= u < t ==> match #[trigger] toks[indices@[u] as int] {
                    TokenView::Comment(c, _) => push_names_agent(c),
                    _ => true,
                },
        decreases indices@.len() - t,
    {
        let idx = indices[t];
        proof {
            assert(crate::tokens::is_comment_at(toks, indices@[t as int] as int));
        }
        if let Some(Token::Comment(c)) = old.get(idx) {
            proof {
                assert(toks[idx as int] == TokenView::Comment(c.content@, c.range));
            }
            if let Some(interact) = Interact::try_from_str(c.content.as_str()) {
                if interact.variant == InteractVar::Agent(AgentInteract::Push) {
                    proof {
                        if interact.parsed_args@.len() > 0 {
                            assert(interact.parsed_args@[0]@ == crate::interact::logic::arg_views(
                                interact.parsed_args@,
                            )[0]);
                        }
                    }
                    let named = interact.parsed_args.len() > 0 && match &interact.parsed_args[0] {
                        InteractArg::Char(_) => true,
                        InteractArg::String(_) => false,
                    };
                    if !named {
                        proof {
                            assert(!push_names_agent(c.content@));
                            assert(match toks[indices@[t as int] as int] {
                                TokenView::Comment(c, _) => push_names_agent(c),
                                _ => true,
                            } == false);
                        }
                        return false;
                    }
                }
            }
        }
        t += 1;
    }
    true
}

} // verus!
