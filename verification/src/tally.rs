//! Counting ballots per candidate and resolving the winner of a tally.

use crate::vote::Vote;
use vstd::prelude::*;
use vstd::set_lib::{lemma_len_subset, lemma_set_disjoint_lens};

verus! {

/// The voters whose recorded ballot is for `candidate`.
pub open spec fn voters_for<P>(votes: Map<Seq<char>, Vote<P>>, candidate: int) -> Set<Seq<char>> {
    votes.dom().filter(|name: Seq<char>| votes[name].candidate == candidate)
}

/// The number of recorded ballots for `candidate`.
pub open spec fn ballots_for<P>(votes: Map<Seq<char>, Vote<P>>, candidate: int) -> nat {
    voters_for(votes, candidate).len()
}

/// The voters whose recorded ballot is for one of the candidates `0 .. bound`.
pub open spec fn voters_below<P>(votes: Map<Seq<char>, Vote<P>>, bound: int) -> Set<Seq<char>> {
    votes.dom().filter(|name: Seq<char>| votes[name].candidate < bound)
}

/// The sum of the counters of the candidates `0 .. upto`.
pub open spec fn tally_sum(tally: Seq<usize>, upto: nat) -> nat
    recommends
        upto <= tally.len(),
    decreases upto,
{
    if upto == 0 {
        0
    } else {
        tally_sum(tally, (upto - 1) as nat) + tally[upto - 1] as nat
    }
}

/// `tally` holds, for each candidate, the number of ballots that `votes`
/// records for that candidate.
pub open spec fn counts<P>(tally: Seq<usize>, votes: Map<Seq<char>, Vote<P>>) -> bool {
    forall|candidate: int|
        0 <= candidate < tally.len() ==> tally[candidate] == ballots_for(votes, candidate)
}

/// What recording a ballot does to the count of a candidate: the ballot that
/// the voter had recorded before, if any, no longer counts, and the new one
/// does.
pub proof fn lemma_ballots_after_insert<P>(
    votes: Map<Seq<char>, Vote<P>>,
    name: Seq<char>,
    vote: Vote<P>,
    candidate: int,
)
    requires
        votes.dom().finite(),
    ensures
        voters_for(votes, candidate).finite(),
        ballots_for(votes.insert(name, vote), candidate) == ballots_for(votes, candidate) - (if votes.contains_key(
            name,
        ) && votes[name].candidate == candidate {
            1int
        } else {
            0int
        }) + (if vote.candidate == candidate {
            1int
        } else {
            0int
        }),
{
    let before = voters_for(votes, candidate);
    let after = voters_for(votes.insert(name, vote), candidate);
    lemma_len_subset(before, votes.dom());
    if vote.candidate == candidate {
        assert(after =~= before.insert(name));
    } else {
        assert(after =~= before.remove(name));
    }
}

/// No candidate holds more ballots than there are voters.
pub proof fn lemma_ballots_bounded<P>(votes: Map<Seq<char>, Vote<P>>, candidate: int)
    requires
        votes.dom().finite(),
    ensures
        ballots_for(votes, candidate) <= votes.dom().len(),
{
    lemma_len_subset(voters_for(votes, candidate), votes.dom());
}

/// The counters of the candidates `0 .. upto` add up to the number of voters
/// whose ballot is for one of these candidates.
proof fn lemma_tally_sum_prefix<P>(tally: Seq<usize>, votes: Map<Seq<char>, Vote<P>>, upto: nat)
    requires
        votes.dom().finite(),
        counts(tally, votes),
        upto <= tally.len(),
    ensures
        voters_below(votes, upto as int).finite(),
        tally_sum(tally, upto) == voters_below(votes, upto as int).len(),
    decreases upto,
{
    lemma_len_subset(voters_below(votes, upto as int), votes.dom());
    if upto == 0 {
        assert(voters_below(votes, 0) =~= Set::empty());
    } else {
        let earlier = voters_below(votes, upto - 1);
        let last = voters_for(votes, upto - 1);
        lemma_tally_sum_prefix(tally, votes, (upto - 1) as nat);
        lemma_len_subset(last, votes.dom());
        assert(voters_below(votes, upto as int) =~= earlier + last);
        assert(earlier.disjoint(last));
        lemma_set_disjoint_lens(earlier, last);
    }
}

/// A tally that counts the recorded ballots adds up to the number of voters.
pub proof fn lemma_tally_sum_is_number_of_voters<P>(
    tally: Seq<usize>,
    votes: Map<Seq<char>, Vote<P>>,
)
    requires
        votes.dom().finite(),
        counts(tally, votes),
        forall|name: Seq<char>| votes.contains_key(name) ==> votes[name].candidate < tally.len(),
    ensures
        tally_sum(tally, tally.len()) == votes.dom().len(),
{
    lemma_tally_sum_prefix(tally, votes, tally.len());
    assert(voters_below(votes, tally.len() as int) =~= votes.dom());
}

/// `winner` leads `tally`: no candidate holds more votes than `winner`, and
/// every candidate after `winner` holds strictly fewer. Of several candidates
/// tied at the maximum, only the one with the highest index leads.
pub open spec fn is_leader(tally: Seq<usize>, winner: int) -> bool {
    &&& 0 <= winner < tally.len()
    &&& forall|i: int| 0 <= i < tally.len() ==> tally[i] <= tally[winner]
    &&& forall|i: int| winner < i < tally.len() ==> tally[i] < tally[winner]
}

/// A tally has at most one leader, so `is_leader` names a single candidate.
pub proof fn lemma_leader_is_unique(tally: Seq<usize>, a: int, b: int)
    requires
        is_leader(tally, a),
        is_leader(tally, b),
    ensures
        a == b,
{
    if a < b {
        assert(tally[b] < tally[a]);
        assert(tally[a] <= tally[b]);
    } else if b < a {
        assert(tally[a] < tally[b]);
        assert(tally[b] <= tally[a]);
    }
}

/// Scans the tally from the first candidate to the last and returns the
/// candidate that leads it. A later candidate whose count equals the running
/// maximum replaces the earlier one, so ties go to the highest index.
pub fn select_winner(tally: &Vec<usize>) -> (winner: usize)
    requires
        tally.len() >= 1,
    ensures
        is_leader(tally@, winner as int),
{
    let mut winner: usize = 0;
    let mut max_votes: usize = tally[0];
    let mut candidate: usize = 1;
    while candidate < tally.len()
        invariant
            1 <= candidate <= tally.len(),
            winner < candidate,
            max_votes == tally[winner as int],
            forall|i: int| 0 <= i < candidate ==> tally[i] <= max_votes,
            forall|i: int| winner < i < candidate ==> tally[i] < max_votes,
        decreases tally.len() - candidate,
    {
        let votes = tally[candidate];
        if votes >= max_votes {
            winner = candidate;
            max_votes = votes;
        }
        candidate += 1;
    }
    winner
}

} // verus!
