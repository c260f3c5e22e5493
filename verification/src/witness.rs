//! The witness of a ballot: the assignment that a proving system is handed
//! for the vote circuit.

use crate::circuit::{vote_circuit, wire_sum};
use crate::field::{is_prime, lemma_boolean_constraint};
use vstd::arithmetic::div_mod::lemma_small_mod;
use vstd::prelude::*;

verus! {

/// The value on the public wire of every ballot: the number of candidates
/// that a ballot selects. A verifier accepts a proof only with this public
/// input.
pub const PUBLIC_INPUT: u64 = 1;

/// The assignment of a ballot for `candidate` among `total_candidates`: the
/// wire of the chosen candidate holds 1, the wires of the others hold 0, and
/// the public wire, which comes last, holds `PUBLIC_INPUT`.
pub open spec fn one_hot(total_candidates: nat, candidate: nat) -> Seq<u64> {
    Seq::new(
        total_candidates + 1,
        |wire: int|
            if wire == total_candidates {
                PUBLIC_INPUT
            } else if wire == candidate {
                1u64
            } else {
                0u64
            },
    )
}

/// Builds the witness of a ballot for `candidate`.
pub fn build_witness(total_candidates: usize, candidate: usize) -> (witness: Vec<u64>)
    requires
        candidate < total_candidates < usize::MAX,
    ensures
        witness@ == one_hot(total_candidates as nat, candidate as nat),
{
    let mut witness: Vec<u64> = Vec::new();
    let mut wire: usize = 0;
    while wire < total_candidates
        invariant
            wire <= total_candidates,
            candidate < total_candidates,
            witness@.len() == wire,
            forall|w: int|
                0 <= w < wire ==> witness@[w] == (if w == candidate {
                    1u64
                } else {
                    0u64
                }),
        decreases total_candidates - wire,
    {
        let value: u64 = if wire == candidate {
            1
        } else {
            0
        };
        witness.push(value);
        wire += 1;
    }
    witness.push(PUBLIC_INPUT);
    witness
}

/// Whether `public_inputs`, the values that a proof was made with on the
/// public wires, are those of a ballot: the single value `PUBLIC_INPUT`. A
/// proof against the vote circuit attests a ballot only with these.
pub fn is_ballot_statement(public_inputs: &Vec<u64>) -> (accepted: bool)
    ensures
        accepted == (public_inputs@ == seq![PUBLIC_INPUT]),
{
    let accepted = public_inputs.len() == 1 && public_inputs[0] == PUBLIC_INPUT;
    assert(accepted ==> public_inputs@ =~= seq![PUBLIC_INPUT]);
    assert(seq![PUBLIC_INPUT].len() == 1 && seq![PUBLIC_INPUT][0] == PUBLIC_INPUT);
    accepted
}

/// The first `terms` private wires of a one-hot assignment add up to 1 once
/// they include the wire of the chosen candidate, and to 0 before.
proof fn lemma_one_hot_sum(total_candidates: nat, candidate: nat, terms: nat)
    requires
        candidate < total_candidates,
        terms <= total_candidates,
    ensures
        wire_sum(one_hot(total_candidates, candidate), terms) == (if terms > candidate {
            1int
        } else {
            0int
        }),
    decreases terms,
{
    if terms > 0 {
        lemma_one_hot_sum(total_candidates, candidate, (terms - 1) as nat);
    }
}

/// The witness of a ballot satisfies the vote circuit, in a field of any
/// order, and holds 1 on the public wire.
pub proof fn lemma_witness_satisfies_circuit(total_candidates: nat, candidate: nat, order: int)
    requires
        candidate < total_candidates < usize::MAX,
        order >= 2,
    ensures
        vote_circuit(total_candidates).satisfied_by(one_hot(total_candidates, candidate), order),
        one_hot(total_candidates, candidate)[vote_circuit(total_candidates).public_input as int]
            == PUBLIC_INPUT,
{
    let circuit = vote_circuit(total_candidates);
    let witness = one_hot(total_candidates, candidate);
    assert forall|index: int| 0 <= index < circuit.constraints.len() implies (
    #[trigger] circuit.constraints[index]).holds(witness, order) by {
        if index < total_candidates {
            let value = witness[index] as int;
            assert(value * (value - 1) == 0) by (nonlinear_arith)
                requires
                    value == 0 || value == 1,
            ;
            lemma_small_mod(0, order as nat);
        } else {
            lemma_one_hot_sum(total_candidates, candidate, total_candidates);
        }
    }
}

/// Wires that each hold 0 or 1 add up to at most their number. Where they add
/// up to 1, a single one of them holds 1.
proof fn lemma_boolean_wires_sum(assignment: Seq<u64>, terms: nat)
    requires
        terms <= assignment.len(),
        forall|wire: int| 0 <= wire < terms ==> assignment[wire] == 0 || assignment[wire] == 1,
    ensures
        0 <= wire_sum(assignment, terms) <= terms,
        wire_sum(assignment, terms) == 0 ==> forall|wire: int|
            0 <= wire < terms ==> assignment[wire] == 0,
        wire_sum(assignment, terms) == 1 ==> exists|chosen: int|
            0 <= chosen < terms && assignment[chosen] == 1 && forall|wire: int|
                0 <= wire < terms && wire != chosen ==> assignment[wire] == 0,
    decreases terms,
{
    if terms > 0 {
        let earlier = (terms - 1) as nat;
        lemma_boolean_wires_sum(assignment, earlier);
        if wire_sum(assignment, terms) == 1 {
            if assignment[terms - 1] == 1 {
                let chosen = terms - 1;
                assert(0 <= chosen < terms && assignment[chosen] == 1 && forall|wire: int|
                    0 <= wire < terms && wire != chosen ==> assignment[wire] == 0);
            } else {
                let chosen = choose|chosen: int|
                    0 <= chosen < earlier && assignment[chosen] == 1 && forall|wire: int|
                        0 <= wire < earlier && wire != chosen ==> assignment[wire] == 0;
                assert(0 <= chosen < terms && assignment[chosen] == 1 && forall|wire: int|
                    0 <= wire < terms && wire != chosen ==> assignment[wire] == 0);
            }
        }
    }
}

/// In a prime field with more elements than there are candidates, the only
/// assignments that satisfy the vote circuit with 1 on the public wire are the
/// witnesses of ballots: each marks a single candidate. So a proof against
/// the circuit, with the public input 1, attests a ballot for one candidate.
pub proof fn lemma_satisfying_assignment_is_one_hot(
    total_candidates: nat,
    assignment: Seq<u64>,
    order: int,
)
    requires
        is_prime(order),
        total_candidates < order,
        total_candidates < usize::MAX,
        vote_circuit(total_candidates).satisfied_by(assignment, order),
        assignment[vote_circuit(total_candidates).public_input as int] == PUBLIC_INPUT,
    ensures
        exists|candidate: nat|
            candidate < total_candidates && assignment == one_hot(total_candidates, candidate),
{
    let circuit = vote_circuit(total_candidates);
    assert forall|wire: int| 0 <= wire < total_candidates implies assignment[wire] == 0
        || assignment[wire] == 1 by {
        assert(circuit.constraints[wire].holds(assignment, order));
        lemma_boolean_constraint(order, assignment[wire] as int);
    }
    lemma_boolean_wires_sum(assignment, total_candidates);
    assert(circuit.constraints[total_candidates as int].holds(assignment, order));
    lemma_small_mod(wire_sum(assignment, total_candidates) as nat, order as nat);
    lemma_small_mod(1, order as nat);
    let chosen = choose|chosen: int|
        0 <= chosen < total_candidates && assignment[chosen] == 1 && forall|wire: int|
            0 <= wire < total_candidates && wire != chosen ==> assignment[wire] == 0;
    assert(assignment =~= one_hot(total_candidates, chosen as nat));
}

} // verus!
