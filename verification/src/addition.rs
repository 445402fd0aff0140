//! The constraint set of one addition: a ripple-carry adder whose addends
//! are constants and whose carry in is false.

use vstd::prelude::*;
use vstd::view::View as _;
use vstd::arithmetic::div_mod::{lemma_breakdown, lemma_fundamental_div_mod_converse};
use vstd::arithmetic::power2::{lemma2_to64, lemma_pow2_pos, lemma_pow2_unfold, pow2};
use crate::adder::{
    FullAdderAllocation, RippleAdder, RippleAdderAllocation, RippleAdderInput, RippleAdderView,
    bits_value, ripple_clauses, wrap_i64,
};
use crate::adder_laws::{
    bit, law_view_is_the_sum, lemma_bits_value_bound, lemma_bits_value_push, model_of, truth,
};
use crate::bit::{Allocate, Allocation, Bit, Synthesize, View, append_clauses, lit_range};
use crate::cnf::{Clause, Cnf, Lit, Sat, negated, variable};
use crate::semantics::{
    all_literals, clause_holds, holds, lemma_clause_1, lemma_holds_concat, lemma_negated,
    lit_holds,
};

verus! {

/// Whether the bit of weight two to the power of `i` is set in `value`.
pub open spec fn bit_at(value: u64, i: nat) -> bool {
    (value as nat / pow2(i)) % 2 == 1
}

/// One unit clause for each literal of `lits`: the literal where the bit
/// of `value` at its index is set, the opposite literal where it is not.
pub open spec fn constant_clauses(lits: Seq<Lit>, value: u64) -> Seq<Seq<Lit>> {
    Seq::new(
        lits.len(),
        |i: int|
            seq![
                if bit_at(value, i as nat) {
                    lits[i]
                } else {
                    negated(lits[i])
                },
            ],
    )
}

/// The literals of the first addend of an addition of `bits` bits: they
/// follow the adder's, which start at variable `1`.
pub open spec fn first_addend(bits: nat) -> Seq<Lit> {
    lit_range(1 + 5 * bits as int, 1 + 6 * bits as int)
}

/// The literals of the second addend: they follow the first addend's.
pub open spec fn second_addend(bits: nat) -> Seq<Lit> {
    lit_range(1 + 6 * bits as int, 1 + 7 * bits as int)
}

/// The literal of the carry in: it follows the second addend's.
pub open spec fn carry_in(bits: nat) -> Lit {
    (1 + 7 * bits) as Lit
}

/// The clauses of an addition: the bits of `a`, the bits of `b`, the
/// carry in forced false, then the clauses of the adder.
pub open spec fn addition_clauses(
    stages: Seq<FullAdderAllocation>,
    a: u64,
    b: u64,
) -> Seq<Seq<Lit>> {
    let bits = stages.len();
    constant_clauses(first_addend(bits), a) + constant_clauses(second_addend(bits), b)
        + seq![seq![negated(carry_in(bits))]] + ripple_clauses(
        stages,
        first_addend(bits),
        second_addend(bits),
        carry_in(bits),
        bits,
    )
}

/// A constraint set together with the adder whose wires it constrains.
pub struct Addition {
    pub cnf: Cnf,
    pub adder: RippleAdderAllocation,
}

/// Whether bit `i` of `value` is set.
fn test_bit(value: u64, i: usize) -> (set: bool)
    requires
        i < 64,
    ensures
        set == bit_at(value, i as nat),
{
    let shifted: u64 = value >> i;
    proof {
        vstd::bits::lemma_u64_shr_is_div(value, i as u64);
        assert(shifted & 1 == shifted % 2) by (bit_vector);
    }
    shifted & 1 == 1
}

/// Builds one constant bit for each of `bits` bits on the next unused
/// variables.
fn allocate_bits(cnf: &mut Cnf, bits: usize) -> (lits: Vec<Lit>)
    requires
        old(cnf).top + bits <= isize::MAX,
    ensures
        final(cnf).clauses == old(cnf).clauses,
        final(cnf).top == old(cnf).top + bits,
        lits@ == lit_range(old(cnf).top as int, final(cnf).top as int),
{
    let mut lits: Vec<Lit> = Vec::new();
    let mut i: usize = 0;
    while i < bits
        invariant
            i <= bits,
            old(cnf).top + bits <= isize::MAX,
            cnf.clauses == old(cnf).clauses,
            cnf.top == old(cnf).top + i,
            lits@ =~= lit_range(old(cnf).top as int, cnf.top as int),
        decreases bits - i,
    {
        let ghost top = cnf.top;
        let bit = cnf.allocate(&Bit);
        assert(bit.spec_vars()[0] == lit_range(top as int, top + 1)[0]);
        lits.push(bit.outputs());
        i += 1;
    }
    lits
}

/// Forces each literal of `lits` to the bit of `value` at its index.
fn assert_constant(cnf: &mut Cnf, lits: &Vec<Lit>, value: u64)
    requires
        lits@.len() <= 64,
        forall|i: int| 0 <= i < lits@.len() ==> #[trigger] lits@[i] > isize::MIN,
    ensures
        final(cnf).top == old(cnf).top,
        final(cnf).clauses.deep_view() == old(cnf).clauses.deep_view() + constant_clauses(
            lits@,
            value,
        ),
{
    let ghost before = cnf.clauses.deep_view();
    let mut i: usize = 0;
    while i < lits.len()
        invariant
            i <= lits.len(),
            lits@.len() <= 64,
            forall|i: int| 0 <= i < lits@.len() ==> #[trigger] lits@[i] > isize::MIN,
            cnf.top == old(cnf).top,
            cnf.clauses.deep_view() =~= before + constant_clauses(lits@, value).take(i as int),
        decreases lits.len() - i,
    {
        let lit: Lit = lits[i];
        let asserted: Lit = if test_bit(value, i) {
            lit
        } else {
            -lit
        };
        let ghost grown = cnf.clauses.deep_view().push(seq![asserted]);
        let unit: Vec<Lit> = vec![asserted];
        assert(unit@ =~= seq![asserted]);
        append_clauses(&mut cnf.clauses, vec![Clause::from(unit)]);
        assert(cnf.clauses.deep_view() =~= grown);
        i += 1;
    }
    assert(constant_clauses(lits@, value).take(i as int) =~= constant_clauses(lits@, value));
}

/// The constraint set of adding `a` and `b` on a ripple-carry adder of
/// `bits` bits with the carry in false. The adder owns the variables from
/// `1`; the bits of `a`, the bits of `b` and the carry in follow.
pub fn addition(bits: usize, a: u64, b: u64) -> (problem: Addition)
    requires
        1 <= bits <= 64,
    ensures
        problem.adder.wf(),
        problem.adder.stages().len() == bits,
        problem.adder.stages()[0].s_lit() == 1,
        problem.cnf.top == 7 * bits + 2,
        problem.cnf.clauses.deep_view() == addition_clauses(problem.adder.stages(), a, b),
{
    let mut cnf = Cnf::from(Vec::new());
    let template = RippleAdder::new(bits as isize);
    let new_top: Lit = cnf.top + template.size();
    let adder = template.allocate(cnf.top..new_top);
    cnf.top = new_top;
    let a_lits = allocate_bits(&mut cnf, bits);
    assert_constant(&mut cnf, &a_lits, a);
    let b_lits = allocate_bits(&mut cnf, bits);
    assert_constant(&mut cnf, &b_lits, b);
    let c_in = cnf.allocate(&Bit);
    assert(c_in.spec_vars()[0] == lit_range(1 + 7 * bits, 2 + 7 * bits)[0]);
    let not_c_in: Lit = -c_in.outputs();
    let unit: Vec<Lit> = vec![not_c_in];
    assert(unit@ =~= seq![negated(carry_in(bits as nat))]);
    append_clauses(&mut cnf.clauses, vec![Clause::from(unit)]);
    let input = RippleAdderInput { a: a_lits, b: b_lits, c_in: c_in.outputs() };
    let clauses = adder.synthesize(input);
    append_clauses(&mut cnf.clauses, clauses);
    assert(cnf.clauses.deep_view() =~= addition_clauses(adder.stages(), a, b));
    Addition { cnf, adder }
}

/// What an adder of `bits` bits makes of `a` and `b`: the sum of their low
/// `bits` bits, its own low `bits` bits as the sum and the bit above
/// them as the carry out.
pub open spec fn sum_view(bits: nat, a: u64, b: u64) -> RippleAdderView {
    let total = a as nat % pow2(bits) + b as nat % pow2(bits);
    RippleAdderView { s: wrap_i64(total % pow2(bits)) as i64, c_out: total >= pow2(bits) }
}

/// Under a valuation that satisfies the unit clauses of a constant, each
/// literal has the bit of the constant at its index.
proof fn lemma_constant_bits(m: spec_fn(int) -> bool, lits: Seq<Lit>, value: u64)
    requires
        all_literals(lits),
        holds(m, constant_clauses(lits, value)),
    ensures
        forall|i: int|
            0 <= i < lits.len() ==> #[trigger] truth(m, lits)[i] == bit_at(value, i as nat),
{
    let clauses = constant_clauses(lits, value);
    assert forall|i: int| 0 <= i < lits.len() implies #[trigger] truth(m, lits)[i] == bit_at(
        value,
        i as nat,
    ) by {
        assert(clause_holds(m, clauses[i]));
        lemma_negated(m, lits[i]);
        if bit_at(value, i as nat) {
            lemma_clause_1(m, lits[i]);
            assert(clauses[i] =~= seq![lits[i]]);
        } else {
            lemma_clause_1(m, negated(lits[i]));
            assert(clauses[i] =~= seq![negated(lits[i])]);
        }
    }
}

/// Bits that are the low bits of `value` spell `value` modulo two to the
/// power of their count.
proof fn lemma_bits_of_constant(bits: Seq<bool>, value: u64)
    requires
        forall|i: int| 0 <= i < bits.len() ==> #[trigger] bits[i] == bit_at(value, i as nat),
    ensures
        bits_value(bits) == value as nat % pow2(bits.len()),
    decreases bits.len(),
{
    if bits.len() == 0 {
        lemma2_to64();
    } else {
        let k = (bits.len() - 1) as nat;
        let front = bits.drop_last();
        assert forall|i: int| 0 <= i < front.len() implies #[trigger] front[i] == bit_at(
            value,
            i as nat,
        ) by {
            assert(front[i] == bits[i]);
        }
        lemma_bits_of_constant(front, value);
        assert(bits =~= front.push(bits.last()));
        lemma_bits_value_push(front, bits.last());
        lemma_pow2_pos(k);
        lemma_pow2_unfold(bits.len());
        lemma_breakdown(value as int, pow2(k) as int, 2);
        assert(bits.last() == bit_at(value, k));
        assert(pow2(k) * bit(bits.last()) == pow2(k) * ((value as int / pow2(k) as int) % 2))
            by (nonlinear_arith)
            requires
                bit(bits.last()) == (value as int / pow2(k) as int) % 2,
        ;
    }
}

/// Whatever model a solver finds for the constraint set of an addition,
/// it decodes to the sum: an assignment that has a nonzero entry for every
/// sum wire and whose valuation satisfies the clauses projects onto the
/// low bits of `a + b` and the carry out of that sum.
pub proof fn law_addition_decodes_to_the_sum(
    adder: RippleAdderAllocation,
    a: u64,
    b: u64,
    assignment: Vec<Lit>,
)
    requires
        adder.wf(),
        adder.stages().len() <= 64,
        adder.stages()[0].s_lit() == 1,
        adder.covers(Sat(Some(assignment))),
        forall|i: int|
            0 <= i < adder.stages().len() ==> assignment@[variable(
                (#[trigger] adder.stages()[i]).s_lit(),
            )] != 0,
        holds(model_of(assignment@), addition_clauses(adder.stages(), a, b)),
    ensures
        adder.spec_view(Sat(Some(assignment))) == Some(sum_view(adder.stages().len(), a, b)),
{
    let m = model_of(assignment@);
    let stages = adder.stages();
    let bits = stages.len();
    let a_lits = first_addend(bits);
    let b_lits = second_addend(bits);
    let c_in = carry_in(bits);
    let a_clauses = constant_clauses(a_lits, a);
    let b_clauses = constant_clauses(b_lits, b);
    let c_clauses = seq![seq![negated(c_in)]];
    let adder_clauses = ripple_clauses(stages, a_lits, b_lits, c_in, bits);
    lemma_holds_concat(m, a_clauses + b_clauses + c_clauses, adder_clauses);
    lemma_holds_concat(m, a_clauses + b_clauses, c_clauses);
    lemma_holds_concat(m, a_clauses, b_clauses);
    assert(all_literals(a_lits));
    assert(all_literals(b_lits));
    lemma_constant_bits(m, a_lits, a);
    lemma_constant_bits(m, b_lits, b);
    lemma_bits_of_constant(truth(m, a_lits), a);
    lemma_bits_of_constant(truth(m, b_lits), b);
    assert(!lit_holds(m, c_in)) by {
        assert(clause_holds(m, c_clauses[0]));
        lemma_clause_1(m, negated(c_in));
        lemma_negated(m, c_in);
    }
    assert(stages.last().wf());
    law_view_is_the_sum(adder, a_lits, b_lits, c_in, assignment);
    let sum = bits_value(adder.sum_bits(assignment@));
    let carry = bit(assignment@[variable(stages.last().c_out_lit())] > 0);
    let total = a as nat % pow2(bits) + b as nat % pow2(bits);
    assert(sum + pow2(bits) * carry == total);
    lemma_bits_value_bound(adder.sum_bits(assignment@));
    lemma_pow2_pos(bits);
    assert(pow2(bits) * carry == carry * pow2(bits)) by (nonlinear_arith);
    lemma_fundamental_div_mod_converse(total as int, pow2(bits) as int, carry as int, sum as int);
}

} // verus!
