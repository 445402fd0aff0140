//! What it means for clauses to be satisfied.
//!
//! A valuation says of each variable whether it is true. A literal holds
//! where its variable has its polarity, a clause where one of its literals
//! does, a sequence of clauses where each of them does.

use vstd::prelude::*;
use crate::cnf::{Lit, is_literal, negated, variable};

verus! {

/// Whether `l` is true under the valuation `m`.
pub open spec fn lit_holds(m: spec_fn(int) -> bool, l: Lit) -> bool {
    if l > 0 {
        m(l as int)
    } else {
        !m(-(l as int))
    }
}

/// Whether at least one literal of `clause` is true under `m`.
pub open spec fn clause_holds(m: spec_fn(int) -> bool, clause: Seq<Lit>) -> bool {
    exists|i: int| 0 <= i < clause.len() && lit_holds(m, #[trigger] clause[i])
}

/// Whether every clause of `clauses` is true under `m`.
pub open spec fn holds(m: spec_fn(int) -> bool, clauses: Seq<Seq<Lit>>) -> bool {
    forall|i: int| 0 <= i < clauses.len() ==> clause_holds(m, #[trigger] clauses[i])
}

/// Whether every literal of `lits` is true under `m`.
pub open spec fn all_hold(m: spec_fn(int) -> bool, lits: Seq<Lit>) -> bool {
    forall|i: int| 0 <= i < lits.len() ==> lit_holds(m, #[trigger] lits[i])
}

/// Whether every element of `lits` names a variable.
pub open spec fn all_literals(lits: Seq<Lit>) -> bool {
    forall|i: int| 0 <= i < lits.len() ==> is_literal(#[trigger] lits[i])
}

/// Whether no literal of `lits` is on the variable of `l`.
pub open spec fn fresh_for(l: Lit, lits: Seq<Lit>) -> bool {
    forall|i: int| 0 <= i < lits.len() ==> variable(#[trigger] lits[i]) != variable(l)
}

/// The valuation that makes the literal `l` hold exactly if `value` is
/// true and leaves every other variable as `m` has it.
pub open spec fn with_lit(m: spec_fn(int) -> bool, l: Lit, value: bool) -> spec_fn(int) -> bool {
    |v: int|
        if v == variable(l) {
            value == (l > 0)
        } else {
            m(v)
        }
}

/// The opposite literal is on the same variable and holds exactly where
/// the literal does not.
pub proof fn lemma_negated(m: spec_fn(int) -> bool, l: Lit)
    requires
        is_literal(l),
    ensures
        is_literal(negated(l)),
        variable(negated(l)) == variable(l),
        lit_holds(m, negated(l)) == !lit_holds(m, l),
{
}

/// Setting a literal gives it the value set and changes no literal on
/// another variable.
pub proof fn lemma_with_lit(m: spec_fn(int) -> bool, l: Lit, value: bool, other: Lit)
    requires
        is_literal(l),
        is_literal(other),
    ensures
        lit_holds(with_lit(m, l, value), l) == value,
        variable(other) != variable(l) ==> lit_holds(with_lit(m, l, value), other) == lit_holds(
            m,
            other,
        ),
{
}

/// Setting a literal changes neither the conjunction nor the disjunction
/// of literals on other variables.
pub proof fn lemma_with_lit_frame(m: spec_fn(int) -> bool, l: Lit, value: bool, lits: Seq<Lit>)
    requires
        is_literal(l),
        all_literals(lits),
        fresh_for(l, lits),
    ensures
        all_hold(with_lit(m, l, value), lits) == all_hold(m, lits),
        clause_holds(with_lit(m, l, value), lits) == clause_holds(m, lits),
{
    let n = with_lit(m, l, value);
    assert forall|i: int| 0 <= i < lits.len() implies lit_holds(n, #[trigger] lits[i]) == lit_holds(
        m,
        lits[i],
    ) by {
        lemma_with_lit(m, l, value, lits[i]);
    }
    if clause_holds(m, lits) {
        let i = choose|i: int| 0 <= i < lits.len() && lit_holds(m, #[trigger] lits[i]);
        assert(lit_holds(n, lits[i]));
    }
    if clause_holds(n, lits) {
        let i = choose|i: int| 0 <= i < lits.len() && lit_holds(n, #[trigger] lits[i]);
        assert(lit_holds(m, lits[i]));
    }
}

/// A clause of one literal holds exactly where the literal does.
pub proof fn lemma_clause_1(m: spec_fn(int) -> bool, x: Lit)
    ensures
        clause_holds(m, seq![x]) <==> lit_holds(m, x),
{
    let c = seq![x];
    assert(c[0] == x);
}

/// A clause of two literals holds exactly where one of them does.
pub proof fn lemma_clause_2(m: spec_fn(int) -> bool, x: Lit, y: Lit)
    ensures
        clause_holds(m, seq![x, y]) <==> (lit_holds(m, x) || lit_holds(m, y)),
{
    let c = seq![x, y];
    assert(c[0] == x && c[1] == y);
}

/// A clause of three literals holds exactly where one of them does.
pub proof fn lemma_clause_3(m: spec_fn(int) -> bool, x: Lit, y: Lit, z: Lit)
    ensures
        clause_holds(m, seq![x, y, z]) <==> (lit_holds(m, x) || lit_holds(m, y) || lit_holds(
            m,
            z,
        )),
{
    let c = seq![x, y, z];
    assert(c[0] == x && c[1] == y && c[2] == z);
}

/// A clause of four literals holds exactly where one of them does.
pub proof fn lemma_clause_4(m: spec_fn(int) -> bool, x: Lit, y: Lit, z: Lit, w: Lit)
    ensures
        clause_holds(m, seq![x, y, z, w]) <==> (lit_holds(m, x) || lit_holds(m, y) || lit_holds(
            m,
            z,
        ) || lit_holds(m, w)),
{
    let c = seq![x, y, z, w];
    assert(c[0] == x && c[1] == y && c[2] == z && c[3] == w);
}

/// Clauses put one after the other hold exactly where both parts hold.
pub proof fn lemma_holds_concat(
    m: spec_fn(int) -> bool,
    first: Seq<Seq<Lit>>,
    second: Seq<Seq<Lit>>,
)
    ensures
        holds(m, first + second) <==> (holds(m, first) && holds(m, second)),
{
    let both = first + second;
    if holds(m, both) {
        assert forall|i: int| 0 <= i < first.len() implies clause_holds(m, #[trigger] first[i]) by {
            assert(both[i] == first[i]);
        }
        assert forall|i: int| 0 <= i < second.len() implies clause_holds(
            m,
            #[trigger] second[i],
        ) by {
            assert(both[first.len() + i] == second[i]);
        }
    }
    if holds(m, first) && holds(m, second) {
        assert forall|i: int| 0 <= i < both.len() implies clause_holds(m, #[trigger] both[i]) by {
            if i < first.len() {
                assert(both[i] == first[i]);
            } else {
                assert(both[i] == second[i - first.len()]);
            }
        }
    }
}

} // verus!
