//! The record that an election keeps of one admitted ballot.

use vstd::prelude::*;

verus! {

/// A proof as an election stores it: an owned run of bytes that the election
/// passes on and never looks into.
#[derive(Clone, Debug, PartialEq, Eq)]
pub struct Proof {
    bytes: Vec<u8>,
}

impl View for Proof {
    type V = Seq<u8>;

    closed spec fn view(&self) -> Seq<u8> {
        self.bytes@
    }
}

impl Proof {
    /// Wraps the serialised form of a proof.
    pub fn from_bytes(bytes: Vec<u8>) -> (proof: Self)
        ensures
            proof@ == bytes@,
    {
        Proof { bytes }
    }

    /// The serialised form of the proof.
    pub fn as_bytes(&self) -> (bytes: &Vec<u8>)
        ensures
            bytes@ == self@,
    {
        &self.bytes
    }
}

/// The record of one admitted ballot: the proof that attests it, and the
/// candidate it was cast for. The candidate is kept in the clear beside the
/// proof, because the election counts by it; the proof hides nothing from the
/// election itself.
#[derive(Clone, Debug, PartialEq, Eq)]
pub struct Vote<TProof> {
    pub proof: TProof,
    pub candidate: usize,
}

impl<TProof> Vote<TProof> {
    /// Pairs a proof with the candidate it attests to.
    pub fn new(proof: TProof, candidate: usize) -> (vote: Self)
        ensures
            vote.proof == proof,
            vote.candidate == candidate,
    {
        Self { candidate, proof }
    }

    /// The candidate that the ballot was cast for.
    pub fn candidate(&self) -> (candidate: usize)
        ensures
            candidate == self.candidate,
    {
        self.candidate
    }
}

} // verus!
