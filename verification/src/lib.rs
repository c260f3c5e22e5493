//! An election whose ballots each carry a proof that they select exactly one
//! candidate.
//!
//! The crate holds the parts of such an election that can be stated and
//! checked exactly: the constraint system that says what a valid ballot is,
//! the witness that a ballot hands to a proving system, the tally, and the
//! state machine that admits ballots and resolves the winner. Producing and
//! verifying the proofs themselves is the business of a proving system, which
//! a caller runs on the circuit and the witnesses that this crate describes.

pub mod circuit;
pub mod election;
pub mod error;
pub mod field;
pub mod tally;
pub mod vote;
pub mod witness;
