//! Interacts: commands written in comments that reach agents or the database.
pub mod agent;
pub mod database;
pub mod logic;
pub mod state;

use crate::interact::agent::{agent_interact_of, lacks_agent_id, AgentInteract, AgentInteractView};
use crate::interact::database::{db_interact_of, DBInteract};
use crate::tokens::{Token, TokenVec, TokenView};
use vstd::prelude::*;

verus! {

/// Why a token holds no interact.
#[derive(Debug, Clone, Copy, PartialEq, Eq, Structural)]
pub enum InteractError {
    /// The comment is empty.
    EmptyContent,
    /// The comment starts with a character that is no command of this kind of interact.
    InvalidCommand(char),
    /// The token is no comment.
    WrongTokenVariant,
    /// The comment is neither an agent nor a database interact.
    NotAnInteract,
}

/// An interact of either kind.
#[derive(Debug)]
pub enum InteractWrapper {
    Agent(AgentInteract),
    DB(DBInteract),
}

/// The mathematical value of an interact of either kind.
pub enum InteractWrapperView {
    Agent(AgentInteractView),
    DB(DBInteract),
}

impl View for InteractWrapper {
    type V = InteractWrapperView;

    open spec fn view(&self) -> InteractWrapperView {
        match self {
            InteractWrapper::Agent(a) => InteractWrapperView::Agent(a@),
            InteractWrapper::DB(d) => InteractWrapperView::DB(*d),
        }
    }
}

/// The interact that token `tok` at position `idx` of `toks` holds, of whichever kind.
pub open spec fn interact_wrapper_of(toks: Seq<TokenView>, tok: TokenView, idx: int) -> Option<
    InteractWrapperView,
> {
    match agent_interact_of(toks, tok, idx) {
        Ok(a) => Some(InteractWrapperView::Agent(a)),
        Err(_) => match db_interact_of(tok) {
            Ok(d) => Some(InteractWrapperView::DB(d)),
            Err(_) => None,
        },
    }
}

impl InteractWrapper {
    /// The interact, agent or database, that token `tok` at position `idx` of `toks` holds.
    pub fn try_from(toks: &TokenVec, tok: &Token, idx: usize) -> (r: Result<Self, InteractError>)
        requires
            !lacks_agent_id(tok@),
        ensures
            match interact_wrapper_of(toks@.0, tok@, idx as int) {
                Some(v) => (r matches Ok(w) && w@ == v),
                None => r == Err::<Self, InteractError>(InteractError::NotAnInteract),
            },
    {
        match (AgentInteract::try_from(toks, tok, idx), DBInteract::try_from(tok)) {
            (Ok(a), Err(_)) => Ok(Self::Agent(a)),
            (Err(_), Ok(db)) => Ok(Self::DB(db)),
            (Err(_), Err(_)) => Err(InteractError::NotAnInteract),
            (Ok(a), Ok(_)) => {
                proof {
                    if let Token::Comment(c) = tok {
                        crate::text::lemma_trim_keeps_first(c.content@);
                    }
                    assert(false);
                }
                Ok(Self::Agent(a))
            },
        }
    }
}

} // verus!
