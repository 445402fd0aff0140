use circuit_cnf::cnf::Sat;
use circuit_cnf::solution::SolutionError;

fn model(text: &str) -> Vec<isize> {
    match Sat::from_str(text) {
        Ok(Sat(Some(assignment))) => assignment,
        other => panic!("no model: {:?}", other),
    }
}

#[test]
fn a_model_is_listed_by_variable() {
    assert_eq!(model("s SATISFIABLE\nv 1 -2 3 0\n"), vec![0, 1, -2, 3]);
}

#[test]
fn the_short_status_words_are_enough() {
    assert_eq!(model("s SAT\nv -1 0"), vec![0, -1]);
    assert_eq!(Sat::from_str("s UNSAT"), Ok(Sat(None)));
}

#[test]
fn an_unsatisfiable_outcome_has_no_model() {
    assert_eq!(Sat::from_str("c a comment\ns UNSATISFIABLE\n"), Ok(Sat(None)));
    assert_eq!(Sat::from_str("s UNSATISFIABLE\nv 1 2 0\n"), Ok(Sat(None)));
}

#[test]
fn value_lines_continue_the_model_up_to_the_closing_zero() {
    let text = "c solver 1.0\ns SATISFIABLE\nv 1 2 -3\nc between\nv -4 5 0\nv 6 0\n";
    assert_eq!(model(text), vec![0, 1, 2, -3, -4, 5]);
}

#[test]
fn nothing_after_the_closing_zero_is_read() {
    assert_eq!(model("s SATISFIABLE\nv 1 0 oops -2\nv what\n"), vec![0, 1]);
}

#[test]
fn a_model_without_closing_zero_ends_with_the_text() {
    assert_eq!(model("s SATISFIABLE\nv 1 -2"), vec![0, 1, -2]);
}

#[test]
fn a_satisfiable_outcome_without_values_has_the_empty_model() {
    assert_eq!(model("s SATISFIABLE\n"), Vec::<isize>::new());
    assert_eq!(model("s SATISFIABLE\nv 0\n"), Vec::<isize>::new());
    assert_eq!(model("s SATISFIABLE\nv \n"), Vec::<isize>::new());
}

#[test]
fn value_lines_before_the_status_line_are_skipped() {
    assert_eq!(model("v 9 0\ns SATISFIABLE\nv -1 0\n"), vec![0, -1]);
}

#[test]
fn the_first_status_line_decides() {
    assert_eq!(Sat::from_str("s UNSATISFIABLE\ns SATISFIABLE\nv 1 0\n"), Ok(Sat(None)));
    assert_eq!(model("s SATISFIABLE\ns UNSATISFIABLE\nv 1 0\n"), vec![0, 1]);
}

#[test]
fn literals_in_any_order_land_on_their_variable() {
    assert_eq!(model("s SATISFIABLE\nv 3 -1 2 0\n"), vec![0, -1, 2, 3]);
    assert_eq!(model("s SATISFIABLE\nv 4 0\n"), vec![0, 0, 0, 0, 4]);
    assert_eq!(model("s SATISFIABLE\nv 2 -2 0\n"), vec![0, 0, -2]);
}

#[test]
fn words_are_separated_by_any_white_space() {
    assert_eq!(model("s SATISFIABLE\r\nv 1\t-2  3\u{a0}-4\u{2003}5 0\r\n"), vec![0, 1, -2, 3, -4, 5]);
}

#[test]
fn a_value_line_needs_its_blank() {
    assert_eq!(model("s SATISFIABLE\nv1 2 0\nv 3 0\n"), vec![0, 0, 0, 3]);
}

#[test]
fn signs_and_leading_zeros_are_read() {
    assert_eq!(model("s SATISFIABLE\nv +1 -002 0003 0\n"), vec![0, 1, -2, 3]);
    assert_eq!(model("s SATISFIABLE\nv 1 -0 2\n"), vec![0, 1]);
    assert_eq!(model("s SATISFIABLE\nv 1 +0 2\n"), vec![0, 1]);
    assert_eq!(model("s SATISFIABLE\nv 1 000 2\n"), vec![0, 1]);
}

#[test]
fn text_without_a_status_line_is_refused() {
    assert_eq!(Sat::from_str(""), Err(SolutionError::NoStatus));
    assert_eq!(Sat::from_str("c nothing\nv 1 0\n"), Err(SolutionError::NoStatus));
    assert_eq!(Sat::from_str("s\n"), Err(SolutionError::NoStatus));
    assert_eq!(Sat::from_str(" s SATISFIABLE\n"), Err(SolutionError::NoStatus));
}

#[test]
fn an_unknown_status_is_refused() {
    assert_eq!(Sat::from_str("s UNKNOWN\n"), Err(SolutionError::UnknownStatus));
    assert_eq!(Sat::from_str("s \nv 1 0\n"), Err(SolutionError::UnknownStatus));
    assert_eq!(Sat::from_str("s sat\n"), Err(SolutionError::UnknownStatus));
}

#[test]
fn a_word_that_is_no_literal_is_refused() {
    for word in ["x", "1x", "-", "+", "--1", "1.5", "0x10", "１"] {
        let text = format!("s SATISFIABLE\nv 1 {} 0\n", word);
        assert_eq!(Sat::from_str(&text), Err(SolutionError::BadLiteral));
    }
}

#[test]
fn a_literal_beyond_the_machine_range_is_refused() {
    let too_large = format!("s SATISFIABLE\nv {}0 0\n", isize::MAX);
    assert_eq!(Sat::from_str(&too_large), Err(SolutionError::BadLiteral));
    let one_more = format!("s SATISFIABLE\nv {} 0\n", isize::MAX as u128 + 1);
    assert_eq!(Sat::from_str(&one_more), Err(SolutionError::BadLiteral));
    let least = format!("s SATISFIABLE\nv {} 0\n", isize::MIN);
    assert_eq!(Sat::from_str(&least), Err(SolutionError::BadLiteral));
}
