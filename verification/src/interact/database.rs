//! The database interact: `%` asks for the status of the database.
use crate::interact::InteractError;
use crate::position::{Diagnostic, DiagnosticSeverity, Range};
use crate::tokens::{Token, TokenView};
use vstd::prelude::*;
use vstd::string::{StrSliceExecFns, StringExecFns};

verus! {

/// What a database interact asks for.
#[derive(Debug, Clone, Copy, PartialEq, Eq, Structural)]
pub enum DBInteractVar {
    Status,
}

/// A database interact found in a comment.
#[derive(Debug, Clone, Copy, PartialEq, Eq, Structural)]
pub struct DBInteract {
    pub range: Range,
    pub var: DBInteractVar,
}

/// The database interact that token `tok` holds: its comment starts (untrimmed) with `%`.
pub open spec fn db_interact_of(tok: TokenView) -> Result<DBInteract, InteractError> {
    match tok {
        TokenView::Comment(c, range) => if c.len() == 0 {
            Err(InteractError::EmptyContent)
        } else if c[0] == '%' {
            Ok(DBInteract { range, var: DBInteractVar::Status })
        } else {
            Err(InteractError::InvalidCommand(c[0]))
        },
        _ => Err(InteractError::WrongTokenVariant),
    }
}

impl DBInteract {
    /// The command character of a database interact.
    pub const TRIGGER: char = '%';

    /// The database interact held by token `tok`.
    pub fn try_from(tok: &Token) -> (r: Result<Self, InteractError>)
        ensures
            r == db_interact_of(tok@),
    {
        match tok {
            Token::Comment(parsed) => {
                if parsed.content.as_str().unicode_len() == 0 {
                    return Err(InteractError::EmptyContent);
                }
                let c = parsed.content.as_str().get_char(0);
                if c == Self::TRIGGER {
                    Ok(Self { range: parsed.range, var: DBInteractVar::Status })
                } else {
                    Err(InteractError::InvalidCommand(c))
                }
            },
            _ => Err(InteractError::WrongTokenVariant),
        }
    }

    /// The hint shown over the interact: `Database Status`.
    pub fn diagnostics(&self) -> (r: Vec<Diagnostic>)
        ensures
            r@.len() == 1,
            r@[0].range == self.range,
            r@[0].severity == Some(DiagnosticSeverity::Hint),
            r@[0].message@ == "Database Status"@,
    {
        let mut all_diagnostics = Vec::new();
        all_diagnostics.push(
            Diagnostic {
                range: self.range,
                severity: Some(DiagnosticSeverity::Hint),
                message: String::from_str("Database Status"),
            },
        );
        all_diagnostics
    }
}

} // verus!
