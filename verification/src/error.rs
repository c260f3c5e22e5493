//! The ways in which an election turns a request down.

use vstd::prelude::*;

verus! {

/// Why an election refused a request. Every refusal leaves the election as it
/// was.
#[derive(Clone, Copy, Debug, PartialEq, Eq, Structural)]
pub enum ElectionError {
    /// A ballot was cast after the election had been closed.
    VotingClosed,
    /// A ballot named a candidate that does not stand in the election.
    InvalidCandidate,
    /// The election was closed a second time.
    AlreadyClosed,
    /// The proving system produced no proof for the ballot.
    ProofGeneration,
    /// An election without candidates was asked for.
    InvalidConfiguration,
}

impl ElectionError {
    /// The text of `message`.
    pub open spec fn message_text(self) -> Seq<char> {
        match self {
            ElectionError::VotingClosed => "Voting closed"@,
            ElectionError::InvalidCandidate => "Wrong candidate"@,
            ElectionError::AlreadyClosed => "Voting is already closed"@,
            ElectionError::ProofGeneration => "Proof generation failed"@,
            ElectionError::InvalidConfiguration => "An election needs at least one candidate"@,
        }
    }

    /// A short description of the refusal, for a person to read.
    pub fn message(&self) -> (text: &'static str)
        ensures
            text@ == self.message_text(),
    {
        match self {
            ElectionError::VotingClosed => "Voting closed",
            ElectionError::InvalidCandidate => "Wrong candidate",
            ElectionError::AlreadyClosed => "Voting is already closed",
            ElectionError::ProofGeneration => "Proof generation failed",
            ElectionError::InvalidConfiguration => "An election needs at least one candidate",
        }
    }
}

} // verus!
