//! The election: admitting ballots while it is open, closing it, and naming
//! the winner.

use crate::circuit::{vote_circuit, Circuit, CircuitView, Constraint};
use crate::error::ElectionError;
use crate::field::FIELD_ORDER;
use crate::tally::{
    ballots_for, counts, is_leader, lemma_ballots_after_insert, lemma_ballots_bounded,
    lemma_tally_sum_is_number_of_voters, select_winner, tally_sum, voters_for,
};
use crate::vote::{Proof, Vote};
use crate::witness::{build_witness, lemma_witness_satisfies_circuit, one_hot};
use vstd::hash_map::StringHashMap;
use vstd::prelude::*;

verus! {

/// An election among a fixed number of candidates. It is open from its
/// creation until it is closed, once; only an open election admits ballots,
/// and only a closed one has a winner.
///
/// A voter has one ballot. A voter who casts a second one replaces the first:
/// the record of the first is dropped, and it no longer counts.
pub struct Election {
    total_candidates: usize,
    circuit: Circuit,
    votes: StringHashMap<Vote<Proof>>,
    is_ongoing: bool,
    winner: Option<usize>,
    vote_tally: Vec<usize>,
}

/// The state of an election.
pub struct ElectionView {
    /// The number of candidates, who are numbered from 0.
    pub total_candidates: usize,
    /// The circuit that every ballot of the election is proved against.
    pub circuit: CircuitView,
    /// The recorded ballot of each voter who has one, by the voter's name.
    pub votes: Map<Seq<char>, Vote<Proof>>,
    /// Whether ballots are still admitted.
    pub is_ongoing: bool,
    /// The winner, once the election is closed.
    pub winner: Option<usize>,
    /// The number of recorded ballots for each candidate.
    pub tally: Seq<usize>,
}

impl ElectionView {
    /// The state of a new election among `total_candidates` candidates.
    pub open spec fn initial(total_candidates: usize) -> ElectionView {
        ElectionView {
            total_candidates,
            circuit: vote_circuit(total_candidates as nat),
            votes: Map::empty(),
            is_ongoing: true,
            winner: None,
            tally: Seq::new(total_candidates as nat, |candidate: int| 0usize),
        }
    }

    /// What holds of an election in every state that it can reach.
    pub open spec fn inv(self) -> bool {
        &&& self.total_candidates >= 1
        &&& self.circuit == vote_circuit(self.total_candidates as nat)
        &&& self.votes.dom().finite()
        &&& forall|name: Seq<char>| #[trigger]
            self.votes.contains_key(name) ==> self.votes[name].candidate < self.total_candidates
        &&& self.tally.len() == self.total_candidates
        &&& counts(self.tally, self.votes)
        &&& self.is_ongoing <==> self.winner is None
        &&& self.winner matches Some(winner) ==> is_leader(self.tally, winner as int)
    }

    /// What the election answers to a ballot for `candidate`, for which the
    /// proving system did (`proved`) or did not produce a proof.
    pub open spec fn admission(self, candidate: usize, proved: bool) -> Result<(), ElectionError> {
        if !self.is_ongoing {
            Err(ElectionError::VotingClosed)
        } else if candidate >= self.total_candidates {
            Err(ElectionError::InvalidCandidate)
        } else if !proved {
            Err(ElectionError::ProofGeneration)
        } else {
            Ok(())
        }
    }

    /// The tally without the ballot that `name` has recorded, if any: that
    /// ballot is taken off its candidate's counter.
    pub open spec fn tally_without(self, name: Seq<char>) -> Seq<usize> {
        if self.votes.contains_key(name) {
            let previous = self.votes[name].candidate as int;
            self.tally.update(previous, (self.tally[previous] - 1) as usize)
        } else {
            self.tally
        }
    }

    /// The tally once `name` has cast a ballot for `candidate`: a ballot that
    /// `name` had recorded before no longer counts, and the counter of
    /// `candidate` goes up by one.
    pub open spec fn tally_after(self, name: Seq<char>, candidate: usize) -> Seq<usize> {
        let others = self.tally_without(name);
        others.update(candidate as int, (others[candidate as int] + 1) as usize)
    }

    /// The state once the ballot `vote` of `name` has been admitted.
    pub open spec fn record(self, name: Seq<char>, vote: Vote<Proof>) -> ElectionView {
        ElectionView {
            votes: self.votes.insert(name, vote),
            tally: self.tally_after(name, vote.candidate),
            ..self
        }
    }

    /// What the election answers to a request to close it.
    pub open spec fn closing(self) -> Result<(), ElectionError> {
        if self.is_ongoing {
            Ok(())
        } else {
            Err(ElectionError::AlreadyClosed)
        }
    }

    /// The state once the election has been closed with `winner`.
    pub open spec fn close(self, winner: usize) -> ElectionView {
        ElectionView { is_ongoing: false, winner: Some(winner), ..self }
    }
}

impl View for Election {
    type V = ElectionView;

    closed spec fn view(&self) -> ElectionView {
        ElectionView {
            total_candidates: self.total_candidates,
            circuit: self.circuit@,
            votes: self.votes@,
            is_ongoing: self.is_ongoing,
            winner: self.winner,
            tally: self.vote_tally@,
        }
    }
}

impl Election {
    /// The election is in a state that `new`, `add_vote` and `close` lead to.
    pub open spec fn wf(&self) -> bool {
        self@.inv()
    }

    /// Opens an election among `total_candidates` candidates, with no ballot
    /// recorded. An election without candidates is refused.
    pub fn new(total_candidates: usize) -> (result: Result<Election, ElectionError>)
        requires
            total_candidates < usize::MAX,
        ensures
            total_candidates == 0 ==> result == Err::<Election, ElectionError>(
                ElectionError::InvalidConfiguration,
            ),
            total_candidates >= 1 ==> (result matches Ok(election) && election.wf() && election@
                == ElectionView::initial(total_candidates)),
    {
        if total_candidates == 0 {
            return Err(ElectionError::InvalidConfiguration);
        }
        let circuit = Self::construct_circuit(total_candidates);
        let mut vote_tally: Vec<usize> = Vec::new();
        let mut candidate: usize = 0;
        while candidate < total_candidates
            invariant
                candidate <= total_candidates,
                vote_tally@.len() == candidate,
                forall|c: int| 0 <= c < candidate ==> vote_tally@[c] == 0,
            decreases total_candidates - candidate,
        {
            vote_tally.push(0);
            candidate += 1;
        }
        let election = Election {
            total_candidates,
            circuit,
            votes: StringHashMap::new(),
            is_ongoing: true,
            winner: None,
            vote_tally,
        };
        proof {
            assert(election@.tally =~= ElectionView::initial(total_candidates).tally);
            lemma_initial_state_holds_invariant(total_candidates);
        }
        Ok(election)
    }

    /// Describes the vote circuit for `total_candidates` candidates: one
    /// private wire for each candidate, constrained to hold 0 or 1, and one
    /// public wire, which the private wires are constrained to add up to. The
    /// description depends on `total_candidates` alone.
    pub fn construct_circuit(total_candidates: usize) -> (circuit: Circuit)
        requires
            total_candidates < usize::MAX,
        ensures
            circuit@ == vote_circuit(total_candidates as nat),
    {
        let mut constraints: Vec<Constraint> = Vec::new();
        let mut wire: usize = 0;
        while wire < total_candidates
            invariant
                wire <= total_candidates,
                constraints@.len() == wire,
                forall|index: int|
                    0 <= index < wire ==> constraints@[index] == (Constraint::Boolean {
                        wire: index as usize,
                    }),
            decreases total_candidates - wire,
        {
            constraints.push(Constraint::Boolean { wire });
            wire += 1;
        }
        constraints.push(Constraint::Sum { terms: total_candidates, total: total_candidates });
        let circuit = Circuit {
            wires: total_candidates + 1,
            public_input: total_candidates,
            constraints,
        };
        assert(circuit@.constraints =~= vote_circuit(total_candidates as nat).constraints);
        circuit
    }

    /// The witness to hand to the proving system for a ballot for `candidate`,
    /// or the refusal that the ballot would meet.
    pub fn get_vote_witness(&self, candidate: usize) -> (result: Result<Vec<u64>, ElectionError>)
        requires
            self.wf(),
        ensures
            !self@.is_ongoing ==> result == Err::<Vec<u64>, ElectionError>(
                ElectionError::VotingClosed,
            ),
            self@.is_ongoing && candidate >= self@.total_candidates ==> result == Err::<
                Vec<u64>,
                ElectionError,
            >(ElectionError::InvalidCandidate),
            self@.is_ongoing && candidate < self@.total_candidates ==> (result matches Ok(witness)
                && witness@ == one_hot(self@.total_candidates as nat, candidate as nat)
                && self@.circuit.satisfied_by(witness@, FIELD_ORDER as int)),
    {
        if !self.is_ongoing {
            return Err(ElectionError::VotingClosed);
        }
        if candidate >= self.total_candidates {
            return Err(ElectionError::InvalidCandidate);
        }
        proof {
            assert(self.circuit@.wires == self.total_candidates + 1);
            lemma_witness_satisfies_circuit(
                self.total_candidates as nat,
                candidate as nat,
                FIELD_ORDER as int,
            );
        }
        Ok(build_witness(self.total_candidates, candidate))
    }

    /// Admits the ballot of `name` for `candidate`. `proved` is what the
    /// proving system returned for the witness of the ballot: the proof, or
    /// nothing where it failed.
    ///
    /// A closed election refuses every ballot. An open one refuses a ballot
    /// for a candidate that does not stand, and then one without a proof. A
    /// refusal changes nothing. An admitted ballot is recorded under `name`,
    /// in place of the ballot that `name` had recorded before, if any, and the
    /// tally follows.
    pub fn add_vote(&mut self, name: String, candidate: usize, proved: Option<Proof>) -> (result:
        Result<(), ElectionError>)
        requires
            old(self).wf(),
        ensures
            final(self).wf(),
            result == old(self)@.admission(candidate, proved is Some),
            !old(self)@.is_ongoing ==> result == Err::<(), ElectionError>(
                ElectionError::VotingClosed,
            ),
            old(self)@.is_ongoing && candidate >= old(self)@.total_candidates ==> (result == Err::<
                (),
                ElectionError,
            >(ElectionError::InvalidCandidate) && final(self)@ == old(self)@),
            result is Err ==> final(self)@ == old(self)@,
            result is Ok ==> (proved matches Some(proof) && final(self)@ == old(self)@.record(
                name@,
                Vote { proof, candidate },
            )),
            tally_sum(final(self)@.tally, final(self)@.tally.len()) == final(self)@.votes.len(),
    {
        proof {
            lemma_tally_adds_up_to_voters(self@);
        }
        if !self.is_ongoing {
            return Err(ElectionError::VotingClosed);
        }
        if candidate >= self.total_candidates {
            return Err(ElectionError::InvalidCandidate);
        }
        let proof = match proved {
            Some(proof) => proof,
            None => {
                return Err(ElectionError::ProofGeneration);
            },
        };
        let previous: Option<usize> = match self.votes.get(name.as_str()) {
            Some(vote) => Some(vote.candidate),
            None => None,
        };
        let ghost before = self@;
        let ghost voter = name@;
        let ghost ballot = Vote { proof, candidate };
        self.votes.insert(name, Vote::new(proof, candidate));
        proof {
            broadcast use vstd::hash_map::group_hash_map_axioms;

            assert(self.votes.spec_len() == self.votes@.len());
            lemma_tally_follows_ballot(before, voter, ballot);
        }
        match previous {
            Some(previous) => {
                let count = self.vote_tally[previous];
                self.vote_tally.set(previous, count - 1);
            },
            None => {},
        }
        let count = self.vote_tally[candidate];
        self.vote_tally.set(candidate, count + 1);
        proof {
            assert(self@.tally =~= before.tally_after(voter, candidate));
            lemma_tally_adds_up_to_voters(self@);
        }
        Ok(())
    }

    /// Closes the election and names its winner: the candidate with the most
    /// ballots, and of several such candidates the one with the highest
    /// number. A closed election refuses to be closed again, and stays as it
    /// is.
    pub fn close(&mut self) -> (result: Result<(), ElectionError>)
        requires
            old(self).wf(),
        ensures
            final(self).wf(),
            result == old(self)@.closing(),
            result is Err ==> final(self)@ == old(self)@,
            result is Ok ==> (final(self)@.winner matches Some(winner) && is_leader(
                old(self)@.tally,
                winner as int,
            ) && final(self)@ == old(self)@.close(winner)),
    {
        if !self.is_ongoing {
            return Err(ElectionError::AlreadyClosed);
        }
        self.is_ongoing = false;
        let winner = select_winner(&self.vote_tally);
        self.winner = Some(winner);
        Ok(())
    }

    /// The number of candidates.
    pub fn total_candidates(&self) -> (total: usize)
        ensures
            total == self@.total_candidates,
    {
        self.total_candidates
    }

    /// The circuit that every ballot of the election is proved against.
    pub fn circuit(&self) -> (circuit: &Circuit)
        ensures
            circuit@ == self@.circuit,
    {
        &self.circuit
    }

    /// Whether the election still admits ballots.
    pub fn is_ongoing(&self) -> (ongoing: bool)
        ensures
            ongoing == self@.is_ongoing,
    {
        self.is_ongoing
    }

    /// The winner, once the election is closed.
    pub fn winner(&self) -> (winner: Option<usize>)
        ensures
            winner == self@.winner,
    {
        self.winner
    }

    /// The number of recorded ballots for each candidate.
    pub fn vote_tally(&self) -> (tally: &Vec<usize>)
        ensures
            tally@ == self@.tally,
    {
        &self.vote_tally
    }

    /// The recorded ballot of the voter `name`, if there is one.
    pub fn vote(&self, name: &str) -> (vote: Option<&Vote<Proof>>)
        ensures
            match vote {
                Some(vote) => self@.votes.contains_key(name@) && *vote == self@.votes[name@],
                None => !self@.votes.contains_key(name@),
            },
    {
        self.votes.get(name)
    }

    /// The number of voters with a recorded ballot.
    pub fn voters(&self) -> (voters: usize)
        ensures
            voters == self@.votes.len(),
    {
        self.votes.len()
    }
}

/// What casting a ballot does to a tally that counts the recorded ballots:
/// the counter that loses the voter's earlier ballot stood at 1 or more, the
/// counter that gains the new one stays within the machine's range, and the
/// tally counts the recorded ballots again.
pub proof fn lemma_tally_follows_ballot(state: ElectionView, name: Seq<char>, vote: Vote<Proof>)
    requires
        state.inv(),
        vote.candidate < state.total_candidates,
        state.votes.insert(name, vote).dom().len() <= usize::MAX,
    ensures
        state.votes.contains_key(name) ==> state.tally[state.votes[name].candidate as int] >= 1,
        state.tally_without(name)[vote.candidate as int] < usize::MAX,
        counts(state.tally_after(name, vote.candidate), state.votes.insert(name, vote)),
{
    let recorded = state.votes.insert(name, vote);
    assert forall|candidate: int| 0 <= candidate < state.tally.len() implies state.tally_after(
        name,
        vote.candidate,
    )[candidate] == ballots_for(recorded, candidate) by {
        lemma_ballots_after_insert(state.votes, name, vote, candidate);
        if state.votes.contains_key(name) && state.votes[name].candidate == candidate {
            assert(voters_for(state.votes, candidate).contains(name));
        }
        lemma_ballots_bounded(recorded, candidate);
    }
    if state.votes.contains_key(name) {
        let previous = state.votes[name].candidate as int;
        lemma_ballots_after_insert(state.votes, name, vote, previous);
        assert(voters_for(state.votes, previous).contains(name));
        assert(state.tally[previous] == ballots_for(state.votes, previous));
    }
    lemma_ballots_after_insert(state.votes, name, vote, vote.candidate as int);
    lemma_ballots_bounded(recorded, vote.candidate as int);
    if state.votes.contains_key(name) && state.votes[name].candidate == vote.candidate {
        assert(voters_for(state.votes, vote.candidate as int).contains(name));
    }
}

/// A new election with at least one candidate is in a state that holds the
/// invariant.
pub proof fn lemma_initial_state_holds_invariant(total_candidates: usize)
    requires
        total_candidates >= 1,
    ensures
        ElectionView::initial(total_candidates).inv(),
{
    let state = ElectionView::initial(total_candidates);
    assert forall|candidate: int| 0 <= candidate < state.tally.len() implies state.tally[candidate]
        == ballots_for(state.votes, candidate) by {
        assert(voters_for(state.votes, candidate) =~= Set::empty());
    }
}

/// Recording a ballot that the election admits keeps the invariant, as long
/// as the number of voters stays within the machine's range.
pub proof fn lemma_record_keeps_invariant(state: ElectionView, name: Seq<char>, vote: Vote<Proof>)
    requires
        state.inv(),
        state.admission(vote.candidate, true) is Ok,
        state.votes.insert(name, vote).dom().len() <= usize::MAX,
    ensures
        state.record(name, vote).inv(),
{
    lemma_tally_follows_ballot(state, name, vote);
}

/// Closing an open election with the candidate that leads its tally keeps the
/// invariant.
pub proof fn lemma_close_keeps_invariant(state: ElectionView, winner: usize)
    requires
        state.inv(),
        state.is_ongoing,
        is_leader(state.tally, winner as int),
    ensures
        state.close(winner).inv(),
{
}

/// In every state that an election can reach, the counters of its tally add
/// up to the number of voters with a recorded ballot.
pub proof fn lemma_tally_adds_up_to_voters(state: ElectionView)
    requires
        state.inv(),
    ensures
        tally_sum(state.tally, state.tally.len()) == state.votes.len(),
{
    lemma_tally_sum_is_number_of_voters(state.tally, state.votes);
}

/// A closed election stays closed: it refuses every further ballot, whatever
/// the candidate and with or without a proof, and it refuses to be closed
/// again.
pub proof fn lemma_closed_election_refuses(
    state: ElectionView,
    winner: usize,
    candidate: usize,
    proved: bool,
)
    ensures
        state.close(winner).admission(candidate, proved) == Err::<(), ElectionError>(
            ElectionError::VotingClosed,
        ),
        state.close(winner).closing() == Err::<(), ElectionError>(ElectionError::AlreadyClosed),
{
}

} // verus!
