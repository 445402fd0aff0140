use circuit_cnf::adder::{
    FullAdder, RippleAdder, RippleAdderAllocation, RippleAdderInput, RippleAdderView,
};
use circuit_cnf::addition::addition;
use circuit_cnf::bit::{Allocate, Allocation, Assert, Bit, Synthesize, View};
use circuit_cnf::cnf::{Clause, Cnf, Sat};

fn lits(lits: &[isize]) -> Clause {
    Clause { lits: lits.to_vec() }
}

fn adder_clauses_hold(clauses: &[Clause], values: &[bool]) -> bool {
    clauses.iter().all(|clause| {
        clause.lits.iter().any(|&lit| {
            let value = values[lit.unsigned_abs()];
            if lit > 0 {
                value
            } else {
                !value
            }
        })
    })
}

/// Assigns by unit propagation, and by trying both values where nothing
/// is forced. Entry `v` of the result is `v` or `-v`.
fn search(clauses: &[Clause], assignment: &mut Vec<isize>) -> bool {
    loop {
        let mut forced = None;
        for clause in clauses {
            let mut open = Vec::new();
            let mut satisfied = false;
            for &lit in &clause.lits {
                let entry = assignment[lit.unsigned_abs()];
                if entry == lit {
                    satisfied = true;
                } else if entry == 0 {
                    open.push(lit);
                }
            }
            if satisfied {
                continue;
            }
            match open.len() {
                0 => return false,
                1 => forced = Some(open[0]),
                _ => {}
            }
        }
        match forced {
            Some(lit) => assignment[lit.unsigned_abs()] = lit,
            None => break,
        }
    }
    match (1..assignment.len()).find(|&v| assignment[v] == 0) {
        None => true,
        Some(v) => {
            for lit in [v as isize, -(v as isize)] {
                let mut trial = assignment.clone();
                trial[v] = lit;
                if search(clauses, &mut trial) {
                    *assignment = trial;
                    return true;
                }
            }
            false
        }
    }
}

fn solve(cnf: &Cnf) -> Sat {
    let mut assignment = vec![0; cnf.top as usize];
    if search(&cnf.clauses, &mut assignment) {
        Sat(Some(assignment))
    } else {
        Sat(None)
    }
}

fn decoded(adder: &RippleAdderAllocation, sat: Sat) -> (i64, bool) {
    let RippleAdderView { s, c_out } = adder.view(sat).expect("satisfiable");
    (s, c_out)
}

#[test]
fn full_adder_needs_five_literals() {
    assert_eq!(FullAdder.size(), 5);
}

#[test]
fn full_adder_owns_its_range_in_order() {
    let adder = FullAdder.allocate(10..15);
    assert_eq!(adder.vars(), vec![10, 11, 12, 13, 14]);
    let outputs = adder.outputs();
    assert_eq!(outputs.s, 10);
    assert_eq!(outputs.c_out, 11);
    assert_eq!(outputs.p, 12);
    assert_eq!(outputs.g, 14);
}

#[test]
fn full_adder_emits_the_clauses_of_its_five_parts() {
    let adder = FullAdder.allocate(4..9);
    let clauses = adder.synthesize((1, 2, 3));
    let expected = vec![
        // sum = a ^ b ^ c_in
        lits(&[-1, -2, -3, 4]),
        lits(&[-1, -2, 3, -4]),
        lits(&[-1, 2, -3, -4]),
        lits(&[-1, 2, 3, 4]),
        lits(&[1, -2, -3, -4]),
        lits(&[1, -2, 3, 4]),
        lits(&[1, 2, -3, 4]),
        lits(&[1, 2, 3, -4]),
        // carry out = generate | (propagate & c_in)
        lits(&[8, 7, -5]),
        lits(&[-8, 5]),
        lits(&[-7, 5]),
        // propagate = a ^ b
        lits(&[-1, -2, -6]),
        lits(&[1, 2, -6]),
        lits(&[1, -2, 6]),
        lits(&[-1, 2, 6]),
        // propagate & c_in
        lits(&[-6, -3, 7]),
        lits(&[6, -7]),
        lits(&[3, -7]),
        // generate = a & b
        lits(&[-1, -2, 8]),
        lits(&[1, -8]),
        lits(&[2, -8]),
    ];
    assert_eq!(clauses, expected);
}

#[test]
fn full_adder_has_one_model_for_each_input_row() {
    let adder = FullAdder.allocate(4..9);
    let clauses = adder.synthesize((1, 2, 3));
    for inputs in 0..8usize {
        let a = inputs & 1 != 0;
        let b = inputs & 2 != 0;
        let c_in = inputs & 4 != 0;
        let mut models = Vec::new();
        for wires in 0..32usize {
            let mut values = vec![false, a, b, c_in];
            for i in 0..5 {
                values.push(wires & (1 << i) != 0);
            }
            if adder_clauses_hold(&clauses, &values) {
                models.push(values);
            }
        }
        assert_eq!(models.len(), 1);
        let model = &models[0];
        let ones = a as u8 + b as u8 + c_in as u8;
        assert_eq!(model[4], a ^ b ^ c_in);
        assert_eq!(model[5], ones >= 2);
        assert_eq!(model[6], a ^ b);
        assert_eq!(model[7], (a ^ b) && c_in);
        assert_eq!(model[8], a && b);
    }
}

#[test]
fn ripple_adder_needs_five_literals_per_bit() {
    assert_eq!(RippleAdder::new(1).size(), 5);
    assert_eq!(RippleAdder::new(4).size(), 20);
    assert_eq!(RippleAdder::new(64).size(), 320);
}

#[test]
fn ripple_adder_owns_its_range_in_order() {
    let adder = RippleAdder::new(3).allocate(1..16);
    assert_eq!(adder.vars(), (1..16).collect::<Vec<isize>>());
    let adder = RippleAdder::new(2).allocate(100..110);
    assert_eq!(adder.vars(), (100..110).collect::<Vec<isize>>());
}

#[test]
fn ripple_adder_outputs_the_sum_wires_and_the_last_carry() {
    let adder = RippleAdder::new(3).allocate(1..16);
    let outputs = adder.outputs();
    assert_eq!(outputs.s, vec![1, 6, 11]);
    assert_eq!(outputs.c_out, 12);
}

#[test]
fn ripple_adder_chains_the_carry_through_its_stages() {
    let adder = RippleAdder::new(2).allocate(1..11);
    let clauses = adder.synthesize(RippleAdderInput { a: vec![11, 12], b: vec![13, 14], c_in: 15 });
    let mut expected = FullAdder.allocate(1..6).synthesize((11, 13, 15));
    expected.extend(FullAdder.allocate(6..11).synthesize((12, 14, 2)));
    assert_eq!(clauses.len(), 42);
    assert_eq!(clauses, expected);
}

#[test]
fn ripple_adder_emits_the_same_clauses_every_time() {
    let adder = RippleAdder::new(4).allocate(1..21);
    let input = || RippleAdderInput {
        a: vec![21, 22, 23, 24],
        b: vec![25, 26, 27, 28],
        c_in: 29,
    };
    let first = adder.synthesize(input());
    let second = adder.synthesize(input());
    assert_eq!(first, second);
}

#[test]
fn adding_six_and_three_on_four_bits() {
    let problem = addition(4, 0b0110, 0b0011);
    let sat = solve(&problem.cnf);
    assert_eq!(decoded(&problem.adder, sat), (0b1001, false));
}

#[test]
fn adding_fifteen_and_one_on_four_bits_carries_out() {
    let problem = addition(4, 0b1111, 0b0001);
    let sat = solve(&problem.cnf);
    assert_eq!(decoded(&problem.adder, sat), (0b0000, true));
}

#[test]
fn the_model_of_an_addition_satisfies_every_clause() {
    let problem = addition(4, 0b0110, 0b0011);
    let Sat(Some(assignment)) = solve(&problem.cnf) else {
        panic!("satisfiable");
    };
    let values: Vec<bool> = assignment.iter().map(|&entry| entry > 0).collect();
    assert!(adder_clauses_hold(&problem.cnf.clauses, &values));
}

#[test]
fn addition_lays_out_adder_addends_and_carry_in() {
    let problem = addition(2, 0b01, 0b10);
    assert_eq!(problem.cnf.top, 16);
    assert_eq!(problem.adder.vars(), (1..11).collect::<Vec<isize>>());
    let clauses = &problem.cnf.clauses;
    assert_eq!(clauses.len(), 2 + 2 + 1 + 42);
    assert_eq!(
        clauses[..5].to_vec(),
        vec![lits(&[11]), lits(&[-12]), lits(&[-13]), lits(&[14]), lits(&[-15])]
    );
    let adder = RippleAdder::new(2).allocate(1..11);
    let rest = adder.synthesize(RippleAdderInput { a: vec![11, 12], b: vec![13, 14], c_in: 15 });
    assert_eq!(clauses[5..].to_vec(), rest);
}

#[test]
fn every_four_bit_addition_decodes_to_its_sum() {
    for a in 0..16u64 {
        for b in 0..16u64 {
            let problem = addition(4, a, b);
            let sat = solve(&problem.cnf);
            assert_eq!(decoded(&problem.adder, sat), (((a + b) % 16) as i64, a + b >= 16));
        }
    }
}

#[test]
fn a_sum_of_sixty_four_bits_wraps_into_the_sign() {
    let a = (-114514i64) as u64;
    let b = (-1919810i64) as u64;
    let problem = addition(64, a, b);
    let sat = solve(&problem.cnf);
    assert_eq!(decoded(&problem.adder, sat), (-2034324, true));
}

#[test]
fn a_sum_of_sixty_three_bits_is_exact() {
    let problem = addition(63, (1 << 61) + 5, (1 << 61) - 1);
    let sat = solve(&problem.cnf);
    assert_eq!(decoded(&problem.adder, sat), ((1 << 62) + 4, false));
    let problem = addition(63, (1 << 62) + 5, (1 << 62) - 1);
    let sat = solve(&problem.cnf);
    assert_eq!(decoded(&problem.adder, sat), (4, true));
}

#[test]
fn contradictory_assertions_decode_to_nothing() {
    let mut cnf = Cnf::from(Vec::new());
    let adder = cnf.allocate(&RippleAdder::new(4));
    let bit = cnf.allocate(&Bit);
    cnf.clauses.extend(Assert.synthesize(vec![bit.outputs()]));
    cnf.clauses.extend(Assert.synthesize(vec![-bit.outputs()]));
    let sat = solve(&cnf);
    assert_eq!(sat, Sat(None));
    assert!(adder.view(sat).is_none());
}

#[test]
fn the_decoder_reads_sum_bits_from_the_most_significant_down() {
    let adder = RippleAdder::new(3).allocate(1..16);
    // sum wires 1, 6, 11: bits 1, 0, 1; carry out (wire 12) false
    let mut assignment: Vec<isize> = (0..16).map(|v| -v).collect();
    assignment[1] = 1;
    assignment[11] = 11;
    assert_eq!(decoded(&adder, Sat(Some(assignment.clone()))), (0b101, false));
    assignment[12] = 12;
    assignment[6] = 6;
    assert_eq!(decoded(&adder, Sat(Some(assignment))), (0b111, true));
}

#[test]
fn the_decoder_reads_an_unmentioned_sum_wire_as_true_and_carry_as_false() {
    let adder = RippleAdder::new(2).allocate(1..11);
    let assignment = vec![0; 11];
    assert_eq!(decoded(&adder, Sat(Some(assignment))), (0b11, false));
}
