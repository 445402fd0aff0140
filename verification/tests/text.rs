use circuit_cnf::adder::FullAdder;
use circuit_cnf::addition::addition;
use circuit_cnf::bit::{Allocate, Allocation, Bit, Xor};
use circuit_cnf::cnf::{Clause, Cnf};

#[test]
fn a_clause_from_literals_holds_them_in_order() {
    assert_eq!(Clause::from(vec![3, -1, 2]), Clause { lits: vec![3, -1, 2] });
    assert_eq!(Clause::from(Vec::new()).lits, Vec::<isize>::new());
}

#[test]
fn an_empty_constraint_set_starts_at_variable_one() {
    let cnf = Cnf::from(Vec::new());
    assert_eq!(cnf.top, 1);
    assert!(cnf.clauses.is_empty());
}

#[test]
fn top_is_one_more_than_the_largest_variable() {
    let clauses = vec![Clause::from(vec![1, -2]), Clause::from(vec![-7, 3]), Clause::from(vec![4])];
    let cnf = Cnf::from(clauses.clone());
    assert_eq!(cnf.top, 8);
    assert_eq!(cnf.clauses, clauses);
    assert_eq!(Cnf::from(vec![Clause::from(Vec::new())]).top, 1);
    assert_eq!(Cnf::from(vec![Clause::from(vec![5])]).top, 6);
}

#[test]
fn allocation_hands_out_consecutive_ranges() {
    let mut cnf = Cnf::from(Vec::new());
    let first = cnf.allocate(&Bit);
    assert_eq!(cnf.top, 2);
    let second = cnf.allocate(&Xor);
    assert_eq!(cnf.top, 3);
    let third = cnf.allocate(&FullAdder);
    assert_eq!(cnf.top, 8);
    assert_eq!(first.vars(), vec![1]);
    assert_eq!(second.vars(), vec![2]);
    assert_eq!(third.vars(), vec![3, 4, 5, 6, 7]);
    assert_eq!(Bit.size(), 1);
}

#[test]
fn a_clause_is_written_with_a_closing_zero() {
    assert_eq!(Clause::from(vec![1, -2, 30]).to_string(), "1 -2 30 0");
    assert_eq!(Clause::from(vec![-105]).to_string(), "-105 0");
    assert_eq!(Clause::from(Vec::new()).to_string(), "0");
}

#[test]
fn extreme_literals_are_written_in_full() {
    assert_eq!(
        Clause::from(vec![isize::MAX, isize::MIN]).to_string(),
        format!("{} {} 0", isize::MAX, isize::MIN)
    );
}

#[test]
fn a_constraint_set_is_written_with_its_header() {
    let cnf = Cnf::from(vec![Clause::from(vec![1, -2]), Clause::from(vec![2, 3, -1])]);
    assert_eq!(cnf.to_string(), "p cnf 3 2\n1 -2 0\n2 3 -1 0\n");
    assert_eq!(Cnf::from(Vec::new()).to_string(), "p cnf 0 0\n");
}

#[test]
fn the_header_counts_allocated_variables() {
    let problem = addition(1, 1, 0);
    let text = problem.cnf.to_string();
    assert!(text.starts_with("p cnf 8 24\n6 0\n-7 0\n-8 0\n"));
    assert_eq!(text.lines().count(), 25);
}
