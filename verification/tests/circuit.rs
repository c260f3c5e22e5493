use zk_election::circuit::{Circuit, Constraint};
use zk_election::election::Election;
use zk_election::field::FIELD_ORDER;
use zk_election::tally::select_winner;
use zk_election::witness::{build_witness, is_ballot_statement, PUBLIC_INPUT};

/// The field element 1/2: twice this value is the field's order plus one.
const HALF: u64 = 0x7FFF_FFFF_8000_0001;

#[test]
fn field_order_is_the_goldilocks_prime() {
    assert_eq!(FIELD_ORDER, 18446744069414584321);
    assert_eq!(FIELD_ORDER as u128, (1u128 << 64) - (1u128 << 32) + 1);
    assert_eq!(2 * (HALF as u128), FIELD_ORDER as u128 + 1);
}

#[test]
fn vote_circuit_has_one_wire_per_candidate_and_a_public_wire() {
    let circuit = Election::construct_circuit(3);
    assert_eq!(circuit.wires, 4);
    assert_eq!(circuit.public_input, 3);
    assert_eq!(
        circuit.constraints,
        vec![
            Constraint::Boolean { wire: 0 },
            Constraint::Boolean { wire: 1 },
            Constraint::Boolean { wire: 2 },
            Constraint::Sum { terms: 3, total: 3 },
        ]
    );
}

#[test]
fn vote_circuit_without_candidates_is_degenerate() {
    let circuit = Election::construct_circuit(0);
    assert_eq!(circuit.wires, 1);
    assert_eq!(circuit.public_input, 0);
    assert_eq!(
        circuit.constraints,
        vec![Constraint::Sum { terms: 0, total: 0 }]
    );
    assert!(circuit.is_satisfied_by(&vec![0]));
    assert!(!circuit.is_satisfied_by(&vec![1]));
}

#[test]
fn vote_circuit_is_the_same_every_time() {
    let first = Election::construct_circuit(5);
    let second = Election::construct_circuit(5);
    assert_eq!(first.wires, second.wires);
    assert_eq!(first.public_input, second.public_input);
    assert_eq!(first.constraints, second.constraints);
    let election = Election::new(5).unwrap();
    assert_eq!(election.circuit().wires, first.wires);
    assert_eq!(election.circuit().public_input, first.public_input);
    assert_eq!(election.circuit().constraints, first.constraints);
}

#[test]
fn witness_marks_the_candidate_and_the_public_wire() {
    assert_eq!(PUBLIC_INPUT, 1);
    assert_eq!(build_witness(1, 0), vec![1u64, 1]);
    assert_eq!(build_witness(2, 0), vec![1u64, 0, 1]);
    assert_eq!(build_witness(2, 1), vec![0u64, 1, 1]);
    assert_eq!(build_witness(4, 2), vec![0u64, 0, 1, 0, 1]);
}

#[test]
fn every_witness_satisfies_its_circuit() {
    for total_candidates in 1..=6usize {
        let circuit = Election::construct_circuit(total_candidates);
        for candidate in 0..total_candidates {
            let witness = build_witness(total_candidates, candidate);
            assert_eq!(witness.len(), total_candidates + 1);
            assert_eq!(witness[total_candidates], PUBLIC_INPUT);
            assert!(circuit.is_satisfied_by(&witness));
        }
    }
}

#[test]
fn halves_that_add_up_to_one_are_rejected() {
    let assignment = vec![HALF, HALF, 1];
    let circuit = Election::construct_circuit(2);
    assert!(Constraint::Sum { terms: 2, total: 2 }.is_met_by(&assignment));
    assert!(!Constraint::Boolean { wire: 0 }.is_met_by(&assignment));
    assert!(!Constraint::Boolean { wire: 1 }.is_met_by(&assignment));
    assert!(!circuit.is_satisfied_by(&assignment));

    let sum_only = Circuit {
        wires: 3,
        public_input: 2,
        constraints: vec![Constraint::Sum { terms: 2, total: 2 }],
    };
    assert!(sum_only.is_satisfied_by(&assignment));
}

#[test]
fn assignments_that_mark_no_single_candidate_are_rejected() {
    let circuit = Election::construct_circuit(3);
    assert!(!circuit.is_satisfied_by(&vec![0, 0, 0, 1]));
    assert!(!circuit.is_satisfied_by(&vec![1, 1, 0, 1]));
    assert!(!circuit.is_satisfied_by(&vec![1, 1, 1, 1]));
    assert!(!circuit.is_satisfied_by(&vec![2, 0, 0, 1]));
    assert!(!circuit.is_satisfied_by(&vec![2, FIELD_ORDER - 1, 0, 1]));
    assert!(!circuit.is_satisfied_by(&vec![FIELD_ORDER - 1, 1, 1, 1]));
    assert!(circuit.is_satisfied_by(&vec![0, 0, 1, 1]));
}

#[test]
fn public_wire_has_to_hold_the_sum() {
    let circuit = Election::construct_circuit(3);
    assert!(!circuit.is_satisfied_by(&vec![0, 1, 0, 0]));
    assert!(!circuit.is_satisfied_by(&vec![0, 1, 0, 2]));
    assert!(circuit.is_satisfied_by(&vec![1, 1, 0, 2]));
    assert!(circuit.is_satisfied_by(&vec![0, 0, 0, 0]));
}

#[test]
fn assignment_of_the_wrong_length_is_rejected() {
    let circuit = Election::construct_circuit(2);
    assert!(!circuit.is_satisfied_by(&vec![]));
    assert!(!circuit.is_satisfied_by(&vec![1, 1]));
    assert!(!circuit.is_satisfied_by(&vec![1, 0, 1, 0]));
    assert!(circuit.is_satisfied_by(&vec![1, 0, 1]));
}

#[test]
fn values_outside_the_field_are_rejected() {
    let free = Circuit {
        wires: 2,
        public_input: 1,
        constraints: vec![],
    };
    assert!(free.is_satisfied_by(&vec![0, FIELD_ORDER - 1]));
    assert!(!free.is_satisfied_by(&vec![0, FIELD_ORDER]));
    assert!(!free.is_satisfied_by(&vec![u64::MAX, 0]));
}

#[test]
fn boolean_constraint_holds_of_zero_and_one_alone() {
    let constraint = Constraint::Boolean { wire: 1 };
    assert!(constraint.is_met_by(&vec![9, 0]));
    assert!(constraint.is_met_by(&vec![9, 1]));
    assert!(!constraint.is_met_by(&vec![9, 2]));
    assert!(!constraint.is_met_by(&vec![9, HALF]));
    assert!(!constraint.is_met_by(&vec![9, FIELD_ORDER - 1]));
    assert!(!constraint.is_met_by(&vec![9, u64::MAX]));
    assert!(!constraint.is_met_by(&vec![9]));
}

#[test]
fn sum_constraint_adds_in_the_field() {
    let constraint = Constraint::Sum { terms: 3, total: 3 };
    assert!(constraint.is_met_by(&vec![1, 2, 3, 6]));
    assert!(!constraint.is_met_by(&vec![1, 2, 3, 5]));
    assert!(constraint.is_met_by(&vec![FIELD_ORDER - 1, 1, 0, 0]));
    assert!(constraint.is_met_by(&vec![FIELD_ORDER - 1, FIELD_ORDER - 1, 5, 3]));
    assert!(constraint.is_met_by(&vec![HALF, HALF, 0, 1]));
    assert!(!constraint.is_met_by(&vec![1, 2, 6]));
    assert!(!constraint.is_met_by(&vec![1, 2, 3]));
    assert!(Constraint::Sum { terms: 0, total: 0 }.is_met_by(&vec![0]));
    assert!(Constraint::Sum { terms: 1, total: 1 }.is_met_by(&vec![4, 4, 7]));
}

#[test]
fn winner_is_the_last_of_the_leading_candidates() {
    assert_eq!(select_winner(&vec![0]), 0);
    assert_eq!(select_winner(&vec![5]), 0);
    assert_eq!(select_winner(&vec![2, 2, 1]), 1);
    assert_eq!(select_winner(&vec![1, 1]), 1);
    assert_eq!(select_winner(&vec![3, 1, 2]), 0);
    assert_eq!(select_winner(&vec![0, 0, 0, 0]), 3);
    assert_eq!(select_winner(&vec![1, 4, 4, 2, 4, 0]), 4);
    assert_eq!(select_winner(&vec![usize::MAX, 0, usize::MAX - 1]), 0);
}

#[test]
fn ballot_statement_is_the_single_public_input_one() {
    assert!(is_ballot_statement(&vec![1]));
    assert!(is_ballot_statement(&vec![PUBLIC_INPUT]));
    assert!(!is_ballot_statement(&vec![]));
    assert!(!is_ballot_statement(&vec![0]));
    assert!(!is_ballot_statement(&vec![2]));
    assert!(!is_ballot_statement(&vec![1, 1]));
    assert!(!is_ballot_statement(&vec![1, 0]));
}
