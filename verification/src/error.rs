//! The failures an operation can end in.

use vstd::prelude::*;

verus! {

/// Why an operation was rejected. A rejected operation leaves the contract
/// state exactly as it found it.
#[derive(Clone, Copy, Debug, PartialEq, Eq, Structural)]
pub enum ContractError {
    /// The signer of the invocation is not the principal the operation requires.
    Unauthorized,
    /// The submitted public key is not an authorized member of the oracle set.
    UnauthorizedOracle,
    /// A settlement already exists for the call identifier.
    AlreadySettled,
    /// The canonical message does not verify under the submitted key and signature.
    InvalidSignature,
    /// No settlement exists yet for the call identifier.
    NotSettled,
}

impl ContractError {
    /// The text that describes each failure.
    pub open spec fn message_text(self) -> Seq<char> {
        match self {
            ContractError::Unauthorized => "Unauthorized"@,
            ContractError::UnauthorizedOracle => "Unauthorized oracle"@,
            ContractError::AlreadySettled => "Call already settled"@,
            ContractError::InvalidSignature => "Invalid oracle signature"@,
            ContractError::NotSettled => "Call not settled"@,
        }
    }

    /// A short description of the failure, fit for a log line or an abort message.
    pub fn message(&self) -> (text: &'static str)
        ensures
            text@ == self.message_text(),
    {
        match self {
            ContractError::Unauthorized => "Unauthorized",
            ContractError::UnauthorizedOracle => "Unauthorized oracle",
            ContractError::AlreadySettled => "Call already settled",
            ContractError::InvalidSignature => "Invalid oracle signature",
            ContractError::NotSettled => "Call not settled",
        }
    }
}

} // verus!
