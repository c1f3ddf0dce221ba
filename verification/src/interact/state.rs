//! The interact that addresses the server's own state.
use crate::interact::InteractError;
use vstd::prelude::*;

verus! {

/// An interact on the server's state; `%` names the database.
#[derive(Debug, Clone, Copy, PartialEq, Eq, Structural)]
pub enum StateInteract {
    Database,
}

impl StateInteract {
    /// The command character of the database.
    pub const DATABASE: char = '%';

    /// The state interact a command character names: only `%`, the database.
    pub fn try_from_char(value: char) -> (r: Result<StateInteract, InteractError>)
        ensures
            value == '%' ==> r == Ok::<StateInteract, InteractError>(StateInteract::Database),
            value != '%' ==> r == Err::<StateInteract, InteractError>(InteractError::InvalidCommand(value)),
    {
        if value == Self::DATABASE {
            Ok(StateInteract::Database)
        } else {
            Err(InteractError::InvalidCommand(value))
        }
    }

    /// How many arguments a state interact takes.
    pub fn n_expected_args(&self) -> (r: usize)
        ensures
            r == 1,
    {
        1
    }
}

} // verus!
