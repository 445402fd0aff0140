use circuit_cnf::bit::{
    All, Allocate, Allocation, And, Any, Assert, Bit, Not, Or, Synthesize, Xor,
};
use circuit_cnf::cnf::Clause;

/// Whether the assignment, which holds the value of variable `v` at index
/// `v`, satisfies every clause.
fn gate_clauses_hold(clauses: &[Clause], values: &[bool]) -> bool {
    clauses.iter().all(|clause| {
        clause.lits.iter().any(|&lit| {
            let value = values[lit.unsigned_abs()];
            if lit > 0 {
                value
            } else {
                !value
            }
        })
    })
}

/// The values of variables `1..=n` spelled by the low bits of `row`, with
/// an unused entry at index 0.
fn gate_row(n: usize, row: usize) -> Vec<bool> {
    let mut values = vec![false];
    for i in 0..n {
        values.push(row & (1 << i) != 0);
    }
    values
}

fn clause(lits: &[isize]) -> Clause {
    Clause { lits: lits.to_vec() }
}

#[test]
fn every_primitive_template_has_size_one() {
    assert_eq!(Bit.size(), 1);
    assert_eq!(Not.size(), 1);
    assert_eq!(All.size(), 1);
    assert_eq!(Any.size(), 1);
    assert_eq!(And.size(), 1);
    assert_eq!(Or.size(), 1);
    assert_eq!(Xor.size(), 1);
}

#[test]
fn primitive_instances_own_the_literal_they_were_given() {
    assert_eq!(Bit.allocate(7..8).vars(), vec![7]);
    assert_eq!(Bit.allocate(7..8).outputs(), 7);
    assert_eq!(Not.allocate(8..9).vars(), vec![8]);
    assert_eq!(Not.allocate(8..9).outputs(), 8);
    assert_eq!(All.allocate(9..10).vars(), vec![9]);
    assert_eq!(All.allocate(9..10).outputs(), 9);
    assert_eq!(Any.allocate(10..11).vars(), vec![10]);
    assert_eq!(Any.allocate(10..11).outputs(), 10);
    assert_eq!(And.allocate(11..12).vars(), vec![11]);
    assert_eq!(And.allocate(11..12).outputs(), 11);
    assert_eq!(Or.allocate(12..13).vars(), vec![12]);
    assert_eq!(Or.allocate(12..13).outputs(), 12);
    assert_eq!(Xor.allocate(13..14).vars(), vec![13]);
    assert_eq!(Xor.allocate(13..14).outputs(), 13);
}

#[test]
fn constant_bit_emits_no_clause() {
    let bit = Bit.allocate(1..2);
    assert_eq!(bit.synthesize(()), Vec::<Clause>::new());
}

#[test]
fn assertion_owns_nothing_and_emits_one_unit_clause_per_input() {
    assert_eq!(Assert.vars(), Vec::<isize>::new());
    assert_eq!(Assert.outputs(), ());
    assert_eq!(Assert.synthesize(vec![3, -5, 2]), vec![clause(&[3]), clause(&[-5]), clause(&[2])]);
    assert_eq!(Assert.synthesize(Vec::new()), Vec::<Clause>::new());
}

#[test]
fn asserting_a_literal_both_ways_cannot_be_satisfied() {
    let clauses = Assert.synthesize(vec![1, -1]);
    assert_eq!(clauses, vec![clause(&[1]), clause(&[-1])]);
    assert!(!gate_clauses_hold(&clauses, &[false, false]));
    assert!(!gate_clauses_hold(&clauses, &[false, true]));
}

#[test]
fn inverter_emits_its_single_clause() {
    let gate = Not.allocate(2..3);
    assert_eq!(gate.synthesize(1), vec![clause(&[-1, -2])]);
    assert_eq!(gate.synthesize(-1), vec![clause(&[1, -2])]);
}

#[test]
fn inverter_only_forbids_input_and_output_both_true() {
    let clauses = Not.allocate(2..3).synthesize(1);
    for row in 0..4 {
        let values = gate_row(2, row);
        assert_eq!(gate_clauses_hold(&clauses, &values), !(values[1] && values[2]));
    }
}

#[test]
fn all_gate_emits_side_clauses_then_the_back_clause() {
    let gate = All.allocate(4..5);
    assert_eq!(
        gate.synthesize(vec![1, 2, 3]),
        vec![clause(&[1, -4]), clause(&[2, -4]), clause(&[3, -4]), clause(&[-1, -2, -3, 4])]
    );
}

#[test]
fn all_gate_without_inputs_forces_its_output_true() {
    let clauses = All.allocate(1..2).synthesize(Vec::new());
    assert_eq!(clauses, vec![clause(&[1])]);
    assert!(gate_clauses_hold(&clauses, &[false, true]));
    assert!(!gate_clauses_hold(&clauses, &[false, false]));
}

#[test]
fn all_gate_admits_exactly_the_conjunction() {
    for n in 0..=4usize {
        let out = n + 1;
        let inputs: Vec<isize> = (1..=n as isize).collect();
        let clauses = All.allocate(out as isize..out as isize + 1).synthesize(inputs);
        for row in 0..(1usize << (n + 1)) {
            let values = gate_row(n + 1, row);
            let conjunction = (1..=n).all(|i| values[i]);
            assert_eq!(gate_clauses_hold(&clauses, &values), values[out] == conjunction);
        }
    }
}

#[test]
fn any_gate_emits_side_clauses_then_the_back_clause() {
    let gate = Any.allocate(4..5);
    assert_eq!(
        gate.synthesize(vec![1, 2, 3]),
        vec![clause(&[-1, 4]), clause(&[-2, 4]), clause(&[-3, 4]), clause(&[1, 2, 3, -4])]
    );
}

#[test]
fn any_gate_without_inputs_forces_its_output_false() {
    let clauses = Any.allocate(1..2).synthesize(Vec::new());
    assert_eq!(clauses, vec![clause(&[-1])]);
    assert!(gate_clauses_hold(&clauses, &[false, false]));
    assert!(!gate_clauses_hold(&clauses, &[false, true]));
}

#[test]
fn any_gate_admits_exactly_the_disjunction() {
    for n in 0..=4usize {
        let out = n + 1;
        let inputs: Vec<isize> = (1..=n as isize).collect();
        let clauses = Any.allocate(out as isize..out as isize + 1).synthesize(inputs);
        for row in 0..(1usize << (n + 1)) {
            let values = gate_row(n + 1, row);
            let disjunction = (1..=n).any(|i| values[i]);
            assert_eq!(gate_clauses_hold(&clauses, &values), values[out] == disjunction);
        }
    }
}

#[test]
fn and_gate_emits_three_clauses() {
    let gate = And.allocate(3..4);
    assert_eq!(
        gate.synthesize((1, 2)),
        vec![clause(&[-1, -2, 3]), clause(&[1, -3]), clause(&[2, -3])]
    );
}

#[test]
fn and_gate_admits_exactly_the_conjunction() {
    let clauses = And.allocate(3..4).synthesize((1, 2));
    for row in 0..8 {
        let values = gate_row(3, row);
        assert_eq!(gate_clauses_hold(&clauses, &values), values[3] == (values[1] && values[2]));
    }
}

#[test]
fn or_gate_emits_three_clauses() {
    let gate = Or.allocate(3..4);
    assert_eq!(
        gate.synthesize((1, 2)),
        vec![clause(&[1, 2, -3]), clause(&[-1, 3]), clause(&[-2, 3])]
    );
}

#[test]
fn or_gate_admits_exactly_the_disjunction() {
    let clauses = Or.allocate(3..4).synthesize((1, 2));
    for row in 0..8 {
        let values = gate_row(3, row);
        assert_eq!(gate_clauses_hold(&clauses, &values), values[3] == (values[1] || values[2]));
    }
}

#[test]
fn xor_gate_emits_one_clause_per_forbidden_row() {
    let gate = Xor.allocate(3..4);
    assert_eq!(
        gate.synthesize((1, 2)),
        vec![
            clause(&[-1, -2, -3]),
            clause(&[1, 2, -3]),
            clause(&[1, -2, 3]),
            clause(&[-1, 2, 3]),
        ]
    );
}

#[test]
fn xor_gate_admits_exactly_the_exclusive_or() {
    let clauses = Xor.allocate(3..4).synthesize((1, 2));
    for row in 0..8 {
        let values = gate_row(3, row);
        assert_eq!(gate_clauses_hold(&clauses, &values), values[3] == (values[1] ^ values[2]));
    }
}

#[test]
fn ternary_xor_gate_emits_one_clause_per_forbidden_row() {
    let gate = Xor.allocate(4..5);
    assert_eq!(
        gate.synthesize((1, 2, 3)),
        vec![
            clause(&[-1, -2, -3, 4]),
            clause(&[-1, -2, 3, -4]),
            clause(&[-1, 2, -3, -4]),
            clause(&[-1, 2, 3, 4]),
            clause(&[1, -2, -3, -4]),
            clause(&[1, -2, 3, 4]),
            clause(&[1, 2, -3, 4]),
            clause(&[1, 2, 3, -4]),
        ]
    );
}

#[test]
fn ternary_xor_gate_admits_exactly_the_parity() {
    let clauses = Xor.allocate(4..5).synthesize((1, 2, 3));
    for row in 0..16 {
        let values = gate_row(4, row);
        assert_eq!(
            gate_clauses_hold(&clauses, &values),
            values[4] == (values[1] ^ values[2] ^ values[3])
        );
    }
}

#[test]
fn gates_accept_negative_input_literals() {
    let clauses = And.allocate(3..4).synthesize((-1, 2));
    assert_eq!(clauses, vec![clause(&[1, -2, 3]), clause(&[-1, -3]), clause(&[2, -3])]);
    for row in 0..8 {
        let values = gate_row(3, row);
        assert_eq!(gate_clauses_hold(&clauses, &values), values[3] == (!values[1] && values[2]));
    }
}
