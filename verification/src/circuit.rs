//! The constraint system that says what a valid ballot is.
//!
//! A circuit is described here as plain data: a number of wires, the wire that
//! is public, and the constraints that an assignment of field elements to the
//! wires has to meet. A proving system compiles such a description; this module
//! says what the description means.

use crate::field::FIELD_ORDER;
use vstd::arithmetic::div_mod::lemma_add_mod_noop_right;
use vstd::prelude::*;

verus! {

/// One arithmetic constraint over the wires of a circuit.
#[derive(Clone, Copy, Debug, PartialEq, Eq, Structural)]
pub enum Constraint {
    /// The wire holds 0 or 1: `wire * (wire - 1) == 0` in the field.
    Boolean { wire: usize },
    /// The wires `0 .. terms` add up, in the field, to the wire `total`.
    Sum { terms: usize, total: usize },
}

/// A circuit: `wires` wires, numbered from 0, of which `public_input` is known
/// to prover and verifier alike, and the constraints over them.
#[derive(Clone, Debug, PartialEq, Eq)]
pub struct Circuit {
    pub wires: usize,
    pub public_input: usize,
    pub constraints: Vec<Constraint>,
}

/// What a `Circuit` describes.
pub struct CircuitView {
    pub wires: nat,
    pub public_input: nat,
    pub constraints: Seq<Constraint>,
}

impl View for Circuit {
    type V = CircuitView;

    open spec fn view(&self) -> CircuitView {
        CircuitView {
            wires: self.wires as nat,
            public_input: self.public_input as nat,
            constraints: self.constraints@,
        }
    }
}

/// The vote circuit for `total_candidates` candidates. The wires
/// `0 .. total_candidates` are private, one for each candidate, and the wire
/// `total_candidates` is public. Every private wire is constrained to hold 0
/// or 1, and the private wires are constrained to add up to the public wire.
/// With the public wire at 1, the private wires then mark a single candidate.
pub open spec fn vote_circuit(total_candidates: nat) -> CircuitView {
    CircuitView {
        wires: total_candidates + 1,
        public_input: total_candidates,
        constraints: Seq::new(
            total_candidates + 1,
            |index: int|
                if index < total_candidates {
                    Constraint::Boolean { wire: index as usize }
                } else {
                    Constraint::Sum {
                        terms: total_candidates as usize,
                        total: total_candidates as usize,
                    }
                },
        ),
    }
}

/// The sum, over the integers, of the values on the wires `0 .. terms`.
pub open spec fn wire_sum(assignment: Seq<u64>, terms: nat) -> int
    recommends
        terms <= assignment.len(),
    decreases terms,
{
    if terms == 0 {
        0
    } else {
        wire_sum(assignment, (terms - 1) as nat) + assignment[terms - 1] as int
    }
}

impl Constraint {
    /// Whether `assignment` meets the constraint in the field of `order`
    /// elements. A constraint over a wire that the assignment lacks is not met.
    pub open spec fn holds(self, assignment: Seq<u64>, order: int) -> bool {
        match self {
            Constraint::Boolean { wire } => {
                &&& wire < assignment.len()
                &&& (assignment[wire as int] * (assignment[wire as int] - 1)) % order == 0
            },
            Constraint::Sum { terms, total } => {
                &&& terms <= assignment.len()
                &&& total < assignment.len()
                &&& wire_sum(assignment, terms as nat) % order == (assignment[total as int] as int)
                    % order
            },
        }
    }

    /// Evaluates the constraint on `assignment` in the field of `FIELD_ORDER`
    /// elements.
    pub fn is_met_by(&self, assignment: &Vec<u64>) -> (met: bool)
        ensures
            met == self.holds(assignment@, FIELD_ORDER as int),
    {
        match *self {
            Constraint::Boolean { wire } => {
                if wire >= assignment.len() {
                    return false;
                }
                let value: u64 = assignment[wire];
                if value == 0 {
                    assert(value * (value - 1) == 0) by (nonlinear_arith)
                        requires
                            value == 0,
                    ;
                    return true;
                }
                assert(value * (value - 1) <= u128::MAX) by (nonlinear_arith)
                    requires
                        1 <= value <= u64::MAX,
                ;
                let product: u128 = (value as u128) * ((value - 1) as u128);
                product % (FIELD_ORDER as u128) == 0
            },
            Constraint::Sum { terms, total } => {
                if terms > assignment.len() || total >= assignment.len() {
                    return false;
                }
                let mut sum: u64 = 0;
                let mut wire: usize = 0;
                while wire < terms
                    invariant
                        wire <= terms <= assignment.len(),
                        sum < FIELD_ORDER,
                        sum == wire_sum(assignment@, wire as nat) % (FIELD_ORDER as int),
                    decreases terms - wire,
                {
                    proof {
                        lemma_add_mod_noop_right(
                            assignment[wire as int] as int,
                            wire_sum(assignment@, wire as nat),
                            FIELD_ORDER as int,
                        );
                    }
                    let next: u128 = (sum as u128 + assignment[wire] as u128) % (
                    FIELD_ORDER as u128);
                    sum = next as u64;
                    wire += 1;
                }
                sum == assignment[total] % FIELD_ORDER
            },
        }
    }
}

impl CircuitView {
    /// Whether `assignment` satisfies the circuit in the field of `order`
    /// elements: it gives every wire a canonical field element, and meets
    /// every constraint.
    pub open spec fn satisfied_by(self, assignment: Seq<u64>, order: int) -> bool {
        &&& assignment.len() == self.wires
        &&& forall|wire: int| 0 <= wire < assignment.len() ==> assignment[wire] < order
        &&& forall|index: int|
            0 <= index < self.constraints.len() ==> (#[trigger] self.constraints[index]).holds(
                assignment,
                order,
            )
    }
}

impl Circuit {
    /// Checks `assignment` against the circuit in the field of `FIELD_ORDER`
    /// elements.
    pub fn is_satisfied_by(&self, assignment: &Vec<u64>) -> (satisfied: bool)
        ensures
            satisfied == self@.satisfied_by(assignment@, FIELD_ORDER as int),
    {
        if assignment.len() != self.wires {
            return false;
        }
        let mut wire: usize = 0;
        while wire < assignment.len()
            invariant
                wire <= assignment.len(),
                forall|w: int| 0 <= w < wire ==> assignment[w] < FIELD_ORDER,
            decreases assignment.len() - wire,
        {
            if assignment[wire] >= FIELD_ORDER {
                return false;
            }
            wire += 1;
        }
        let mut index: usize = 0;
        while index < self.constraints.len()
            invariant
                index <= self.constraints.len(),
                forall|i: int|
                    0 <= i < index ==> (#[trigger] self.constraints@[i]).holds(
                        assignment@,
                        FIELD_ORDER as int,
                    ),
            decreases self.constraints.len() - index,
        {
            if !self.constraints[index].is_met_by(assignment) {
                assert(!self@.constraints[index as int].holds(assignment@, FIELD_ORDER as int));
                return false;
            }
            index += 1;
        }
        assert(self@.constraints == self.constraints@);
        true
    }
}

} // verus!
