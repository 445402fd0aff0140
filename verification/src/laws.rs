//! What the clauses of each primitive say: under every valuation they hold
//! exactly where the output wire has the value of the function that the
//! instance computes, so for fixed inputs one value of a fresh output
//! satisfies them and the other does not.

use vstd::prelude::*;
use crate::bit::{
    all_clauses, and_clauses, any_clauses, not_clauses, or_clauses, unit_clauses, xor2_clauses,
    xor3_clauses,
};
use crate::cnf::{Lit, is_literal, negated, variable};
use crate::semantics::{
    all_hold, all_literals, clause_holds, fresh_for, holds, lemma_clause_1, lemma_clause_2,
    lemma_clause_3, lemma_clause_4, lemma_negated, lemma_with_lit, lemma_with_lit_frame, lit_holds,
    with_lit,
};

verus! {

/// Unit clauses hold exactly where every asserted literal is true.
pub proof fn law_assert(m: spec_fn(int) -> bool, inputs: Seq<Lit>)
    ensures
        holds(m, unit_clauses(inputs)) <==> all_hold(m, inputs),
{
    let f = unit_clauses(inputs);
    assert forall|i: int| 0 <= i < inputs.len() implies (clause_holds(m, #[trigger] f[i])
        <==> lit_holds(m, inputs[i])) by {
        assert(f[i] =~= seq![inputs[i]]);
        lemma_clause_1(m, inputs[i]);
    }
    if holds(m, f) {
        assert forall|i: int| 0 <= i < inputs.len() implies lit_holds(m, #[trigger] inputs[i]) by {
            assert(clause_holds(m, f[i]));
        }
    }
}

/// Asserting a literal and its opposite leaves nothing that satisfies the
/// clauses.
pub proof fn law_contradiction_unsatisfiable(m: spec_fn(int) -> bool, x: Lit)
    requires
        is_literal(x),
    ensures
        !holds(m, unit_clauses(seq![x, negated(x)])),
{
    let inputs = seq![x, negated(x)];
    law_assert(m, inputs);
    lemma_negated(m, x);
    if all_hold(m, inputs) {
        assert(lit_holds(m, inputs[0]));
        assert(lit_holds(m, inputs[1]));
    }
}

/// The inverter's clause holds exactly where input and output are not
/// both true. It admits an output that is false where the input is false.
pub proof fn law_not(m: spec_fn(int) -> bool, x: Lit, out: Lit)
    requires
        is_literal(x),
        is_literal(out),
    ensures
        holds(m, not_clauses(x, out)) <==> !(lit_holds(m, x) && lit_holds(m, out)),
{
    let f = not_clauses(x, out);
    lemma_negated(m, x);
    lemma_negated(m, out);
    lemma_clause_2(m, negated(x), negated(out));
    assert(f[0] == seq![negated(x), negated(out)]);
}

/// The clauses of a conjunction hold exactly where the output is true if
/// and only if every input is; with no input, where the output is true.
pub proof fn law_all(m: spec_fn(int) -> bool, inputs: Seq<Lit>, out: Lit)
    requires
        all_literals(inputs),
        is_literal(out),
    ensures
        holds(m, all_clauses(inputs, out)) <==> (lit_holds(m, out) <==> all_hold(m, inputs)),
{
    let f = all_clauses(inputs, out);
    let n = inputs.len() as int;
    let back = f[n];
    lemma_negated(m, out);
    assert forall|i: int| 0 <= i < n implies (clause_holds(m, #[trigger] f[i]) <==> (lit_holds(
        m,
        inputs[i],
    ) || !lit_holds(m, out))) by {
        assert(f[i] =~= seq![inputs[i], negated(out)]);
        lemma_clause_2(m, inputs[i], negated(out));
    }
    assert(back.len() == n + 1 && back[n] == out);
    assert forall|i: int| 0 <= i < n implies lit_holds(m, #[trigger] back[i]) == !lit_holds(
        m,
        inputs[i],
    ) by {
        assert(back[i] == negated(inputs[i]));
        lemma_negated(m, inputs[i]);
    }
    assert(clause_holds(m, back) <==> (lit_holds(m, out) || !all_hold(m, inputs))) by {
        if lit_holds(m, out) {
            assert(lit_holds(m, back[n]));
        }
        if !all_hold(m, inputs) {
            let i = choose|i: int| 0 <= i < n && !lit_holds(m, #[trigger] inputs[i]);
            assert(lit_holds(m, back[i]));
        }
        if clause_holds(m, back) {
            let j = choose|j: int| 0 <= j < back.len() && lit_holds(m, #[trigger] back[j]);
            if j < n {
                assert(!lit_holds(m, inputs[j]));
            }
        }
    }
    if holds(m, f) {
        assert(clause_holds(m, f[n]));
        if lit_holds(m, out) {
            assert forall|i: int| 0 <= i < n implies lit_holds(m, #[trigger] inputs[i]) by {
                assert(clause_holds(m, f[i]));
            }
        }
    }
    if lit_holds(m, out) <==> all_hold(m, inputs) {
        assert forall|i: int| 0 <= i < f.len() implies clause_holds(m, #[trigger] f[i]) by {
            if i < n {
                if lit_holds(m, out) {
                    assert(lit_holds(m, inputs[i]));
                }
            }
        }
    }
}

/// For fixed inputs, exactly one value of a fresh output satisfies the
/// clauses of a conjunction: the conjunction of the inputs.
pub proof fn law_all_output(m: spec_fn(int) -> bool, inputs: Seq<Lit>, out: Lit, value: bool)
    requires
        all_literals(inputs),
        is_literal(out),
        fresh_for(out, inputs),
    ensures
        holds(with_lit(m, out, value), all_clauses(inputs, out)) <==> (value <==> all_hold(
            m,
            inputs,
        )),
{
    law_all(with_lit(m, out, value), inputs, out);
    lemma_with_lit(m, out, value, out);
    lemma_with_lit_frame(m, out, value, inputs);
}

/// The clauses of a disjunction hold exactly where the output is true if
/// and only if some input is; with no input, where the output is false.
pub proof fn law_any(m: spec_fn(int) -> bool, inputs: Seq<Lit>, out: Lit)
    requires
        all_literals(inputs),
        is_literal(out),
    ensures
        holds(m, any_clauses(inputs, out)) <==> (lit_holds(m, out) <==> clause_holds(m, inputs)),
{
    let f = any_clauses(inputs, out);
    let n = inputs.len() as int;
    let back = f[n];
    lemma_negated(m, out);
    assert forall|i: int| 0 <= i < n implies (clause_holds(m, #[trigger] f[i]) <==> (!lit_holds(
        m,
        inputs[i],
    ) || lit_holds(m, out))) by {
        assert(f[i] =~= seq![negated(inputs[i]), out]);
        lemma_negated(m, inputs[i]);
        lemma_clause_2(m, negated(inputs[i]), out);
    }
    assert(back.len() == n + 1 && back[n] == negated(out));
    assert forall|i: int| 0 <= i < n implies #[trigger] back[i] == inputs[i] by {}
    assert(clause_holds(m, back) <==> (!lit_holds(m, out) || clause_holds(m, inputs))) by {
        if !lit_holds(m, out) {
            assert(lit_holds(m, back[n]));
        }
        if clause_holds(m, inputs) {
            let i = choose|i: int| 0 <= i < n && lit_holds(m, #[trigger] inputs[i]);
            assert(lit_holds(m, back[i]));
        }
        if clause_holds(m, back) {
            let j = choose|j: int| 0 <= j < back.len() && lit_holds(m, #[trigger] back[j]);
            if j < n {
                assert(lit_holds(m, inputs[j]));
            }
        }
    }
    if holds(m, f) {
        assert(clause_holds(m, f[n]));
        if clause_holds(m, inputs) {
            let i = choose|i: int| 0 <= i < n && lit_holds(m, #[trigger] inputs[i]);
            assert(clause_holds(m, f[i]));
        }
    }
    if lit_holds(m, out) <==> clause_holds(m, inputs) {
        assert forall|i: int| 0 <= i < f.len() implies clause_holds(m, #[trigger] f[i]) by {
            if i < n {
                if lit_holds(m, inputs[i]) {
                    assert(clause_holds(m, inputs));
                }
            }
        }
    }
}

/// For fixed inputs, exactly one value of a fresh output satisfies the
/// clauses of a disjunction: the disjunction of the inputs.
pub proof fn law_any_output(m: spec_fn(int) -> bool, inputs: Seq<Lit>, out: Lit, value: bool)
    requires
        all_literals(inputs),
        is_literal(out),
        fresh_for(out, inputs),
    ensures
        holds(with_lit(m, out, value), any_clauses(inputs, out)) <==> (value <==> clause_holds(
            m,
            inputs,
        )),
{
    law_any(with_lit(m, out, value), inputs, out);
    lemma_with_lit(m, out, value, out);
    lemma_with_lit_frame(m, out, value, inputs);
}

/// The clauses of the two-input conjunction hold exactly where the output
/// is true if and only if both inputs are.
pub proof fn law_and(m: spec_fn(int) -> bool, a: Lit, b: Lit, out: Lit)
    requires
        is_literal(a),
        is_literal(b),
        is_literal(out),
    ensures
        holds(m, and_clauses(a, b, out)) <==> (lit_holds(m, out) <==> (lit_holds(m, a)
            && lit_holds(m, b))),
{
    let f = and_clauses(a, b, out);
    lemma_negated(m, a);
    lemma_negated(m, b);
    lemma_negated(m, out);
    lemma_clause_3(m, negated(a), negated(b), out);
    lemma_clause_2(m, a, negated(out));
    lemma_clause_2(m, b, negated(out));
    assert(f[0] == seq![negated(a), negated(b), out]);
    assert(f[1] == seq![a, negated(out)]);
    assert(f[2] == seq![b, negated(out)]);
}

/// The clauses of the two-input disjunction hold exactly where the output
/// is true if and only if one of the inputs is.
pub proof fn law_or(m: spec_fn(int) -> bool, a: Lit, b: Lit, out: Lit)
    requires
        is_literal(a),
        is_literal(b),
        is_literal(out),
    ensures
        holds(m, or_clauses(a, b, out)) <==> (lit_holds(m, out) <==> (lit_holds(m, a) || lit_holds(
            m,
            b,
        ))),
{
    let f = or_clauses(a, b, out);
    lemma_negated(m, a);
    lemma_negated(m, b);
    lemma_negated(m, out);
    lemma_clause_3(m, a, b, negated(out));
    lemma_clause_2(m, negated(a), out);
    lemma_clause_2(m, negated(b), out);
    assert(f[0] == seq![a, b, negated(out)]);
    assert(f[1] == seq![negated(a), out]);
    assert(f[2] == seq![negated(b), out]);
}

/// The clauses of the two-input exclusive-or hold exactly where the output
/// is true if and only if the inputs differ.
pub proof fn law_xor2(m: spec_fn(int) -> bool, a: Lit, b: Lit, out: Lit)
    requires
        is_literal(a),
        is_literal(b),
        is_literal(out),
    ensures
        holds(m, xor2_clauses(a, b, out)) <==> (lit_holds(m, out) <==> (lit_holds(m, a)
            != lit_holds(m, b))),
{
    let f = xor2_clauses(a, b, out);
    lemma_negated(m, a);
    lemma_negated(m, b);
    lemma_negated(m, out);
    lemma_clause_3(m, negated(a), negated(b), negated(out));
    lemma_clause_3(m, a, b, negated(out));
    lemma_clause_3(m, a, negated(b), out);
    lemma_clause_3(m, negated(a), b, out);
    assert(f[0] == seq![negated(a), negated(b), negated(out)]);
    assert(f[1] == seq![a, b, negated(out)]);
    assert(f[2] == seq![a, negated(b), out]);
    assert(f[3] == seq![negated(a), b, out]);
}

/// For each of the four values of the inputs, exactly one value of a
/// fresh output satisfies the clauses: the exclusive-or of the inputs.
pub proof fn law_xor2_output(m: spec_fn(int) -> bool, a: Lit, b: Lit, out: Lit, value: bool)
    requires
        is_literal(a),
        is_literal(b),
        is_literal(out),
        variable(a) != variable(out),
        variable(b) != variable(out),
    ensures
        holds(with_lit(m, out, value), xor2_clauses(a, b, out)) <==> (value <==> (lit_holds(m, a)
            != lit_holds(m, b))),
{
    law_xor2(with_lit(m, out, value), a, b, out);
    lemma_with_lit(m, out, value, out);
    lemma_with_lit(m, out, value, a);
    lemma_with_lit(m, out, value, b);
}

/// The parity of three truth values.
pub open spec fn odd3(a: bool, b: bool, c: bool) -> bool {
    (a != b) != c
}

/// The clauses of the three-input exclusive-or hold exactly where the
/// output is true if and only if an odd number of inputs is.
pub proof fn law_xor3(m: spec_fn(int) -> bool, a: Lit, b: Lit, c: Lit, out: Lit)
    requires
        is_literal(a),
        is_literal(b),
        is_literal(c),
        is_literal(out),
    ensures
        holds(m, xor3_clauses(a, b, c, out)) <==> (lit_holds(m, out) <==> odd3(
            lit_holds(m, a),
            lit_holds(m, b),
            lit_holds(m, c),
        )),
{
    let f = xor3_clauses(a, b, c, out);
    lemma_negated(m, a);
    lemma_negated(m, b);
    lemma_negated(m, c);
    lemma_negated(m, out);
    lemma_clause_4(m, negated(a), negated(b), negated(c), out);
    lemma_clause_4(m, negated(a), negated(b), c, negated(out));
    lemma_clause_4(m, negated(a), b, negated(c), negated(out));
    lemma_clause_4(m, negated(a), b, c, out);
    lemma_clause_4(m, a, negated(b), negated(c), negated(out));
    lemma_clause_4(m, a, negated(b), c, out);
    lemma_clause_4(m, a, b, negated(c), out);
    lemma_clause_4(m, a, b, c, negated(out));
    assert(f[0] == seq![negated(a), negated(b), negated(c), out]);
    assert(f[1] == seq![negated(a), negated(b), c, negated(out)]);
    assert(f[2] == seq![negated(a), b, negated(c), negated(out)]);
    assert(f[3] == seq![negated(a), b, c, out]);
    assert(f[4] == seq![a, negated(b), negated(c), negated(out)]);
    assert(f[5] == seq![a, negated(b), c, out]);
    assert(f[6] == seq![a, b, negated(c), out]);
    assert(f[7] == seq![a, b, c, negated(out)]);
}

/// For each of the eight values of the inputs, exactly one value of a
/// fresh output satisfies the clauses: the parity of the inputs.
pub proof fn law_xor3_output(
    m: spec_fn(int) -> bool,
    a: Lit,
    b: Lit,
    c: Lit,
    out: Lit,
    value: bool,
)
    requires
        is_literal(a),
        is_literal(b),
        is_literal(c),
        is_literal(out),
        variable(a) != variable(out),
        variable(b) != variable(out),
        variable(c) != variable(out),
    ensures
        holds(with_lit(m, out, value), xor3_clauses(a, b, c, out)) <==> (value <==> odd3(
            lit_holds(m, a),
            lit_holds(m, b),
            lit_holds(m, c),
        )),
{
    law_xor3(with_lit(m, out, value), a, b, c, out);
    lemma_with_lit(m, out, value, out);
    lemma_with_lit(m, out, value, a);
    lemma_with_lit(m, out, value, b);
    lemma_with_lit(m, out, value, c);
}

} // verus!
