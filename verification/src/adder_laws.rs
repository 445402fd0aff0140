//! What the clauses of the adders say: a full adder's wires are functions
//! of its inputs, and the sum wires and the carry out of a ripple-carry
//! adder spell the sum of the addends and the carry in.

use vstd::prelude::*;
use vstd::view::View as _;
use vstd::arithmetic::power2::{lemma2_to64, lemma2_to64_rest, lemma_pow2_strictly_increases, lemma_pow2_unfold, pow2};
use crate::adder::{
    FullAdderAllocation, RippleAdderAllocation, bits_value, carry_into, full_adder_clauses,
    ripple_clauses, wrap_i64,
};
use crate::bit::{Allocation, Synthesize, and_clauses, or_clauses, xor2_clauses, xor3_clauses};
use crate::bit::View;
use crate::cnf::{Lit, Sat, is_literal, variable};
use crate::laws::{law_and, law_or, law_xor2, law_xor3, odd3};
use crate::semantics::{all_literals, holds, lemma_holds_concat, lemma_with_lit, lit_holds, with_lit};

verus! {

/// Whether at least two of three truth values are true.
pub open spec fn majority(a: bool, b: bool, c: bool) -> bool {
    (a && b) || (a && c) || (b && c)
}

/// `1` for true and `0` for false.
pub open spec fn bit(value: bool) -> nat {
    if value {
        1
    } else {
        0
    }
}

/// The truth values of `lits` under `m`, in order.
pub open spec fn truth(m: spec_fn(int) -> bool, lits: Seq<Lit>) -> Seq<bool> {
    Seq::new(lits.len(), |i: int| lit_holds(m, lits[i]))
}

/// The valuation that an assignment stands for: a variable is true where
/// its entry is positive.
pub open spec fn model_of(assignment: Seq<Lit>) -> spec_fn(int) -> bool {
    |v: int| 0 <= v < assignment.len() && assignment[v] > 0
}

/// Whether each of the five wires of `adder` has, under `m`, the value
/// that the full adder computes from `a`, `b` and `c_in`.
pub open spec fn full_adder_computes(
    m: spec_fn(int) -> bool,
    adder: FullAdderAllocation,
    a: Lit,
    b: Lit,
    c_in: Lit,
) -> bool {
    let va = lit_holds(m, a);
    let vb = lit_holds(m, b);
    let vc = lit_holds(m, c_in);
    &&& lit_holds(m, adder.s_lit()) == odd3(va, vb, vc)
    &&& lit_holds(m, adder.c_out_lit()) == majority(va, vb, vc)
    &&& lit_holds(m, adder.p_lit()) == (va != vb)
    &&& lit_holds(m, adder.p_and_c_in_lit()) == ((va != vb) && vc)
    &&& lit_holds(m, adder.g_lit()) == (va && vb)
}

/// The valuation `m` with the five wires of `adder` set to the values
/// that the full adder computes from `a`, `b` and `c_in` under `m`.
pub open spec fn full_adder_valuation(
    m: spec_fn(int) -> bool,
    adder: FullAdderAllocation,
    a: Lit,
    b: Lit,
    c_in: Lit,
) -> spec_fn(int) -> bool {
    let va = lit_holds(m, a);
    let vb = lit_holds(m, b);
    let vc = lit_holds(m, c_in);
    with_lit(
        with_lit(
            with_lit(
                with_lit(with_lit(m, adder.s_lit(), odd3(va, vb, vc)), adder.c_out_lit(), majority(
                    va,
                    vb,
                    vc,
                )),
                adder.p_lit(),
                va != vb,
            ),
            adder.p_and_c_in_lit(),
            (va != vb) && vc,
        ),
        adder.g_lit(),
        va && vb,
    )
}

/// The clauses of a full adder hold exactly where the sum wire is the
/// parity of the three inputs, the carry out their majority, and the
/// inner wires the propagate and generate signals they name.
pub proof fn law_full_adder(
    m: spec_fn(int) -> bool,
    adder: FullAdderAllocation,
    a: Lit,
    b: Lit,
    c_in: Lit,
)
    requires
        all_literals(adder.spec_vars()),
        is_literal(a),
        is_literal(b),
        is_literal(c_in),
    ensures
        holds(m, adder.spec_synthesize((a, b, c_in))) <==> full_adder_computes(
            m,
            adder,
            a,
            b,
            c_in,
        ),
{
    let wires = adder.spec_vars();
    let s = adder.s_lit();
    let c_out = adder.c_out_lit();
    let p = adder.p_lit();
    let pc = adder.p_and_c_in_lit();
    let g = adder.g_lit();
    assert(wires[0] == s && wires[1] == c_out && wires[2] == p && wires[3] == pc && wires[4] == g);
    let sum = xor3_clauses(a, b, c_in, s);
    let carry = or_clauses(g, pc, c_out);
    let propagate = xor2_clauses(a, b, p);
    let gated = and_clauses(p, c_in, pc);
    let generate = and_clauses(a, b, g);
    lemma_holds_concat(m, sum, carry);
    lemma_holds_concat(m, sum + carry, propagate);
    lemma_holds_concat(m, sum + carry + propagate, gated);
    lemma_holds_concat(m, sum + carry + propagate + gated, generate);
    law_xor3(m, a, b, c_in, s);
    law_or(m, g, pc, c_out);
    law_xor2(m, a, b, p);
    law_and(m, p, c_in, pc);
    law_and(m, a, b, g);
}

/// For each of the eight values of the inputs, the clauses of a full adder
/// determine every wire: valuations that satisfy them and agree on the
/// inputs agree on the five wires.
pub proof fn law_full_adder_unique(
    first: spec_fn(int) -> bool,
    second: spec_fn(int) -> bool,
    adder: FullAdderAllocation,
    a: Lit,
    b: Lit,
    c_in: Lit,
)
    requires
        all_literals(adder.spec_vars()),
        is_literal(a),
        is_literal(b),
        is_literal(c_in),
        holds(first, adder.spec_synthesize((a, b, c_in))),
        holds(second, adder.spec_synthesize((a, b, c_in))),
        lit_holds(first, a) == lit_holds(second, a),
        lit_holds(first, b) == lit_holds(second, b),
        lit_holds(first, c_in) == lit_holds(second, c_in),
    ensures
        forall|i: int|
            0 <= i < 5 ==> lit_holds(first, #[trigger] adder.spec_vars()[i]) == lit_holds(
                second,
                adder.spec_vars()[i],
            ),
{
    law_full_adder(first, adder, a, b, c_in);
    law_full_adder(second, adder, a, b, c_in);
}

/// For each of the eight values of the inputs, the clauses of a full adder
/// on fresh wires can be satisfied without touching any other variable:
/// by giving each wire the value the adder computes. A literal `other` on
/// none of the wires keeps its value.
pub proof fn law_full_adder_satisfiable(
    m: spec_fn(int) -> bool,
    adder: FullAdderAllocation,
    a: Lit,
    b: Lit,
    c_in: Lit,
    other: Lit,
)
    requires
        adder.wf(),
        all_literals(adder.spec_vars()),
        is_literal(a),
        is_literal(b),
        is_literal(c_in),
        forall|i: int|
            0 <= i < 5 ==> {
                &&& variable(#[trigger] adder.spec_vars()[i]) != variable(a)
                &&& variable(adder.spec_vars()[i]) != variable(b)
                &&& variable(adder.spec_vars()[i]) != variable(c_in)
            },
        is_literal(other),
    ensures
        holds(full_adder_valuation(m, adder, a, b, c_in), adder.spec_synthesize((a, b, c_in))),
        (forall|i: int| 0 <= i < 5 ==> variable(other) != variable(#[trigger] adder.spec_vars()[i]))
            ==> lit_holds(full_adder_valuation(m, adder, a, b, c_in), other) == lit_holds(m, other),
{
    let wires = adder.spec_vars();
    let s = adder.s_lit();
    let c_out = adder.c_out_lit();
    let p = adder.p_lit();
    let pc = adder.p_and_c_in_lit();
    let g = adder.g_lit();
    assert(wires[0] == s && wires[1] == c_out && wires[2] == p && wires[3] == pc && wires[4] == g);
    let va = lit_holds(m, a);
    let vb = lit_holds(m, b);
    let vc = lit_holds(m, c_in);
    let m1 = with_lit(m, s, odd3(va, vb, vc));
    let m2 = with_lit(m1, c_out, majority(va, vb, vc));
    let m3 = with_lit(m2, p, va != vb);
    let m4 = with_lit(m3, pc, (va != vb) && vc);
    let m5 = with_lit(m4, g, va && vb);
    assert(m5 == full_adder_valuation(m, adder, a, b, c_in));
    law_full_adder(m5, adder, a, b, c_in);
    if forall|i: int| 0 <= i < 5 ==> variable(other) != variable(#[trigger] wires[i]) {
        let v = variable(other);
        assert(v != variable(wires[0]) && v != variable(wires[1]) && v != variable(wires[2]) && v
            != variable(wires[3]) && v != variable(wires[4]));
    }
}

/// Appending a bit on the most significant side adds the bit's weight.
pub proof fn lemma_bits_value_push(bits: Seq<bool>, top: bool)
    ensures
        bits_value(bits.push(top)) == bits_value(bits) + pow2(bits.len()) * bit(top),
    decreases bits.len(),
{
    let grown = bits.push(top);
    if bits.len() == 0 {
        assert(grown.drop_first() =~= Seq::<bool>::empty());
        assert(bits_value(grown.drop_first()) == 0);
        lemma2_to64();
    } else {
        let rest = bits.drop_first();
        assert(grown.drop_first() =~= rest.push(top));
        lemma_bits_value_push(rest, top);
        lemma_pow2_unfold(bits.len());
        assert(2 * (pow2(rest.len()) * bit(top)) == (2 * pow2(rest.len())) * bit(top))
            by (nonlinear_arith);
    }
}

/// Bits spell a number below two to the power of their count.
pub proof fn lemma_bits_value_bound(bits: Seq<bool>)
    ensures
        bits_value(bits) < pow2(bits.len()),
    decreases bits.len(),
{
    if bits.len() == 0 {
        lemma2_to64();
    } else {
        lemma_bits_value_bound(bits.drop_first());
        lemma_pow2_unfold(bits.len());
    }
}

/// Up to 63 bits decode to the number they spell: nothing wraps.
pub proof fn law_narrow_sum_is_exact(bits: Seq<bool>)
    requires
        bits.len() <= 63,
    ensures
        wrap_i64(bits_value(bits)) == bits_value(bits),
{
    lemma_bits_value_bound(bits);
    lemma2_to64_rest();
    if bits.len() < 63 {
        lemma_pow2_strictly_increases(bits.len(), 63);
    }
    let value = bits_value(bits) as int;
    assert(value % 0x1_0000_0000_0000_0000 == value) by {
        vstd::arithmetic::div_mod::lemma_small_mod(value as nat, 0x1_0000_0000_0000_0000);
    }
}

/// Under a valuation that satisfies the clauses of the first `n` stages,
/// the first `n` sum wires and the carry that leaves stage `n - 1` spell
/// the sum of the first `n` bits of both addends and the carry in.
pub proof fn lemma_ripple_prefix(
    m: spec_fn(int) -> bool,
    adder: RippleAdderAllocation,
    a: Seq<Lit>,
    b: Seq<Lit>,
    c_in: Lit,
    n: nat,
)
    requires
        n <= adder.stages().len(),
        a.len() == adder.stages().len(),
        b.len() == adder.stages().len(),
        forall|i: int|
            0 <= i < adder.stages().len() ==> all_literals(
                (#[trigger] adder.stages()[i]).spec_vars(),
            ),
        all_literals(a),
        all_literals(b),
        is_literal(c_in),
        holds(m, ripple_clauses(adder.stages(), a, b, c_in, n)),
    ensures
        bits_value(truth(m, adder.sum_lits().take(n as int))) + pow2(n) * bit(
            lit_holds(m, carry_into(adder.stages(), c_in, n as int)),
        ) == bits_value(truth(m, a.take(n as int))) + bits_value(truth(m, b.take(n as int))) + bit(
            lit_holds(m, c_in),
        ),
    decreases n,
{
    let stages = adder.stages();
    let sums = adder.sum_lits();
    if n == 0 {
        assert(truth(m, sums.take(0)) =~= Seq::<bool>::empty());
        assert(truth(m, a.take(0)) =~= Seq::<bool>::empty());
        assert(truth(m, b.take(0)) =~= Seq::<bool>::empty());
        lemma2_to64();
    } else {
        let k = (n - 1) as nat;
        let stage = stages[k as int];
        let carry = carry_into(stages, c_in, k as int);
        lemma_holds_concat(
            m,
            ripple_clauses(stages, a, b, c_in, k),
            stage.spec_synthesize((a[k as int], b[k as int], carry)),
        );
        lemma_ripple_prefix(m, adder, a, b, c_in, k);
        assert(is_literal(carry)) by {
            if k > 0 {
                let below = stages[k - 1].spec_vars();
                assert(is_literal(below[1]));
            }
        }
        law_full_adder(m, stage, a[k as int], b[k as int], carry);
        let va = lit_holds(m, a[k as int]);
        let vb = lit_holds(m, b[k as int]);
        let vc = lit_holds(m, carry);
        let vs = lit_holds(m, stage.s_lit());
        let vo = lit_holds(m, stage.c_out_lit());
        assert(bit(vs) + 2 * bit(vo) == bit(va) + bit(vb) + bit(vc));
        assert(truth(m, sums.take(n as int)) =~= truth(m, sums.take(k as int)).push(vs));
        assert(truth(m, a.take(n as int)) =~= truth(m, a.take(k as int)).push(va));
        assert(truth(m, b.take(n as int)) =~= truth(m, b.take(k as int)).push(vb));
        lemma_bits_value_push(truth(m, sums.take(k as int)), vs);
        lemma_bits_value_push(truth(m, a.take(k as int)), va);
        lemma_bits_value_push(truth(m, b.take(k as int)), vb);
        lemma_pow2_unfold(n);
        let w = pow2(k) as int;
        assert(pow2(n) == 2 * w);
        assert(w * bit(vs) + (2 * w) * bit(vo) == w * bit(va) + w * bit(vb) + w * bit(vc))
            by (nonlinear_arith)
            requires
                bit(vs) + 2 * bit(vo) == bit(va) + bit(vb) + bit(vc),
        ;
    }
}

/// Under every valuation that satisfies the clauses of a ripple-carry
/// adder, the sum wires followed by the carry out spell the sum of the
/// two addends and the carry in.
pub proof fn law_ripple_adder_adds(
    m: spec_fn(int) -> bool,
    adder: RippleAdderAllocation,
    a: Seq<Lit>,
    b: Seq<Lit>,
    c_in: Lit,
)
    requires
        adder.wf(),
        a.len() == adder.stages().len(),
        b.len() == adder.stages().len(),
        forall|i: int|
            0 <= i < adder.stages().len() ==> all_literals(
                (#[trigger] adder.stages()[i]).spec_vars(),
            ),
        all_literals(a),
        all_literals(b),
        is_literal(c_in),
        holds(m, ripple_clauses(adder.stages(), a, b, c_in, adder.stages().len())),
    ensures
        bits_value(truth(m, adder.sum_lits())) + pow2(adder.stages().len()) * bit(
            lit_holds(m, adder.stages().last().c_out_lit()),
        ) == bits_value(truth(m, a)) + bits_value(truth(m, b)) + bit(lit_holds(m, c_in)),
{
    let n = adder.stages().len();
    lemma_ripple_prefix(m, adder, a, b, c_in, n);
    assert(adder.sum_lits().take(n as int) =~= adder.sum_lits());
    assert(a.take(n as int) =~= a);
    assert(b.take(n as int) =~= b);
}

/// An assignment that has a nonzero entry for every sum wire of a
/// ripple-carry adder on positive literals, and whose valuation satisfies
/// the adder's clauses, decodes to the sum of the addends and the carry
/// in: the sum bits that the projection reads, with the carry out as the
/// bit above them, spell that sum.
pub proof fn law_view_is_the_sum(
    adder: RippleAdderAllocation,
    a: Seq<Lit>,
    b: Seq<Lit>,
    c_in: Lit,
    assignment: Vec<Lit>,
)
    requires
        adder.wf(),
        adder.stages()[0].s_lit() >= 1,
        adder.covers(Sat(Some(assignment))),
        forall|i: int|
            0 <= i < adder.stages().len() ==> assignment@[variable(
                (#[trigger] adder.stages()[i]).s_lit(),
            )] != 0,
        a.len() == adder.stages().len(),
        b.len() == adder.stages().len(),
        all_literals(a),
        all_literals(b),
        is_literal(c_in),
        holds(
            model_of(assignment@),
            ripple_clauses(adder.stages(), a, b, c_in, adder.stages().len()),
        ),
    ensures
        bits_value(adder.sum_bits(assignment@)) + pow2(adder.stages().len()) * bit(
            assignment@[variable(adder.stages().last().c_out_lit())] > 0,
        ) == bits_value(truth(model_of(assignment@), a)) + bits_value(
            truth(model_of(assignment@), b),
        ) + bit(lit_holds(model_of(assignment@), c_in)),
{
    let m = model_of(assignment@);
    let stages = adder.stages();
    assert(stages.last().wf());
    assert(stages.last().s_lit() == stages[0].s_lit() + 5 * (stages.len() - 1));
    assert forall|i: int| 0 <= i < stages.len() implies all_literals(
        (#[trigger] stages[i]).spec_vars(),
    ) by {
        assert(stages[i].wf());
        let wires = stages[i].spec_vars();
        assert forall|k: int| 0 <= k < wires.len() implies is_literal(#[trigger] wires[k]) by {}
    }
    law_ripple_adder_adds(m, adder, a, b, c_in);
    assert forall|i: int| 0 <= i < stages.len() implies #[trigger] adder.sum_bits(assignment@)[i]
        == truth(m, adder.sum_lits())[i] by {
        assert(stages[i].wf());
        assert(variable(adder.sum_lits()[i]) < assignment@.len());
    }
    assert(adder.sum_bits(assignment@) =~= truth(m, adder.sum_lits()));
}

} // verus!
