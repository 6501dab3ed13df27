//! The result codes of a login.

use vstd::prelude::*;

verus! {

/// Result of a login, sent as its protocol number.
#[derive(Debug, Clone, Copy, PartialEq, Eq, Hash, PartialOrd, Ord)]
pub enum ResultState {
    Unknown,
    Success,
    BrokenKey,
    InvalidCredentials,
}

/// The protocol number of a result code.
pub open spec fn result_state_number(r: ResultState) -> i32 {
    match r {
        ResultState::Unknown => 0,
        ResultState::Success => 1,
        ResultState::BrokenKey => 2,
        ResultState::InvalidCredentials => 3,
    }
}

impl ResultState {
    /// The protocol number of this result code.
    pub fn number(self) -> (res: i32)
        ensures
            res == result_state_number(self),
    {
        match self {
            ResultState::Unknown => 0,
            ResultState::Success => 1,
            ResultState::BrokenKey => 2,
            ResultState::InvalidCredentials => 3,
        }
    }
}

} // verus!
