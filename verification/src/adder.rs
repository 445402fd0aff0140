//! Adders built from the primitives: the full adder of three bits, and the
//! ripple-carry adder that chains full adders from the least significant
//! bit upwards.

use vstd::prelude::*;
use vstd::view::View as _;
use std::ops::Range;
use crate::bit::{
    Allocate, Allocation, And, AndAllocation, Or, OrAllocation, Synthesize, Xor, XorAllocation,
    all_negatable, and_clauses, append_clauses, lit_range, or_clauses, xor2_clauses, xor3_clauses,
};
use crate::bit::View;
use crate::cnf::{Clause, Lit, Sat, negatable, variable};

verus! {

/// The clauses of a full adder of `a`, `b` and `c_in`: the sum is their
/// parity, and the carry out is `g | (p & c_in)` with `p = a ^ b` and
/// `g = a & b`.
pub open spec fn full_adder_clauses(
    a: Lit,
    b: Lit,
    c_in: Lit,
    s: Lit,
    c_out: Lit,
    p: Lit,
    p_and_c_in: Lit,
    g: Lit,
) -> Seq<Seq<Lit>> {
    xor3_clauses(a, b, c_in, s) + or_clauses(g, p_and_c_in, c_out) + xor2_clauses(a, b, p)
        + and_clauses(p, c_in, p_and_c_in) + and_clauses(a, b, g)
}

/// A full adder: five wires on five consecutive literals, in the order
/// sum, carry out, propagate, propagate-and-carry-in, generate.
pub struct FullAdderAllocation {
    s: XorAllocation,
    c_out: OrAllocation,
    p: XorAllocation,
    p_and_c_in: AndAllocation,
    g: AndAllocation,
}

/// The output wires of a full adder.
pub struct FullAdderOutput {
    /// The sum `a ^ b ^ c_in`.
    pub s: Lit,
    /// The carry out.
    pub c_out: Lit,
    /// The propagate signal `a ^ b`.
    pub p: Lit,
    /// The generate signal `a & b`.
    pub g: Lit,
}

impl vstd::view::View for FullAdderOutput {
    type V = FullAdderOutput;

    open spec fn view(&self) -> FullAdderOutput {
        *self
    }
}

impl FullAdderAllocation {
    /// The literal of the sum wire.
    pub closed spec fn s_lit(&self) -> Lit {
        self.s.lit()
    }

    /// The literal of the carry-out wire.
    pub closed spec fn c_out_lit(&self) -> Lit {
        self.c_out.lit()
    }

    /// The literal of the propagate wire.
    pub closed spec fn p_lit(&self) -> Lit {
        self.p.lit()
    }

    /// The literal of the wire that carries `p & c_in`.
    pub closed spec fn p_and_c_in_lit(&self) -> Lit {
        self.p_and_c_in.lit()
    }

    /// The literal of the generate wire.
    pub closed spec fn g_lit(&self) -> Lit {
        self.g.lit()
    }
}

impl Allocation for FullAdderAllocation {
    type Output = FullAdderOutput;

    open spec fn wf(&self) -> bool {
        &&& self.c_out_lit() == self.s_lit() + 1
        &&& self.p_lit() == self.s_lit() + 2
        &&& self.p_and_c_in_lit() == self.s_lit() + 3
        &&& self.g_lit() == self.s_lit() + 4
    }

    open spec fn spec_vars(&self) -> Seq<Lit> {
        seq![
            self.s_lit(),
            self.c_out_lit(),
            self.p_lit(),
            self.p_and_c_in_lit(),
            self.g_lit(),
        ]
    }

    open spec fn spec_outputs(&self) -> FullAdderOutput {
        FullAdderOutput {
            s: self.s_lit(),
            c_out: self.c_out_lit(),
            p: self.p_lit(),
            g: self.g_lit(),
        }
    }

    fn vars(&self) -> (vars: Vec<Lit>) {
        let mut vars = self.s.vars();
        let mut c_out = self.c_out.vars();
        let mut p = self.p.vars();
        let mut p_and_c_in = self.p_and_c_in.vars();
        let mut g = self.g.vars();
        vars.append(&mut c_out);
        vars.append(&mut p);
        vars.append(&mut p_and_c_in);
        vars.append(&mut g);
        assert(vars@ =~= self.spec_vars());
        vars
    }

    fn outputs(&self) -> (outputs: FullAdderOutput) {
        let s = self.s.outputs();
        let c_out = self.c_out.outputs();
        let p = self.p.outputs();
        let g = self.g.outputs();
        FullAdderOutput { s, c_out, p, g }
    }
}

impl Synthesize<(Lit, Lit, Lit)> for FullAdderAllocation {
    open spec fn accepts(&self, input: (Lit, Lit, Lit)) -> bool {
        &&& negatable(input.0)
        &&& negatable(input.1)
        &&& negatable(input.2)
        &&& all_negatable(self.spec_vars())
    }

    open spec fn spec_synthesize(&self, input: (Lit, Lit, Lit)) -> Seq<Seq<Lit>> {
        full_adder_clauses(
            input.0,
            input.1,
            input.2,
            self.s_lit(),
            self.c_out_lit(),
            self.p_lit(),
            self.p_and_c_in_lit(),
            self.g_lit(),
        )
    }

    fn synthesize(&self, input: (Lit, Lit, Lit)) -> (clauses: Vec<Clause>) {
        let (a, b, c_in) = input;
        proof {
            let wires = self.spec_vars();
            assert(negatable(wires[0]) && negatable(wires[1]) && negatable(wires[2]) && negatable(
                wires[3],
            ) && negatable(wires[4]));
        }
        let mut clauses = self.s.synthesize((a, b, c_in));
        append_clauses(
            &mut clauses,
            self.c_out.synthesize((self.g.outputs(), self.p_and_c_in.outputs())),
        );
        append_clauses(&mut clauses, self.p.synthesize((a, b)));
        append_clauses(&mut clauses, self.p_and_c_in.synthesize((self.p.outputs(), c_in)));
        append_clauses(&mut clauses, self.g.synthesize((a, b)));
        clauses
    }
}

/// The template of the full adder.
pub struct FullAdder;

impl Allocate for FullAdder {
    type Result = FullAdderAllocation;

    open spec fn valid(&self) -> bool {
        true
    }

    open spec fn spec_size(&self) -> int {
        5
    }

    proof fn lemma_size_is_natural(&self) {
    }

    fn size(&self) -> (size: isize) {
        Xor.size() + Or.size() + Xor.size() + And.size() + And.size()
    }

    fn allocate(&self, range: Range<Lit>) -> (instance: FullAdderAllocation)
        ensures
            instance.s_lit() == range.start,
    {
        let start: Lit = range.start;
        let s = Xor.allocate(start..start + 1);
        let c_out = Or.allocate(start + 1..start + 2);
        let p = Xor.allocate(start + 2..start + 3);
        let p_and_c_in = And.allocate(start + 3..start + 4);
        let g = And.allocate(start + 4..start + 5);
        proof {
            assert(s.spec_vars()[0] == lit_range(start as int, start + 1)[0]);
            assert(c_out.spec_vars()[0] == lit_range(start + 1, start + 2)[0]);
            assert(p.spec_vars()[0] == lit_range(start + 2, start + 3)[0]);
            assert(p_and_c_in.spec_vars()[0] == lit_range(start + 3, start + 4)[0]);
            assert(g.spec_vars()[0] == lit_range(start + 4, start + 5)[0]);
        }
        let instance = FullAdderAllocation { s, c_out, p, p_and_c_in, g };
        assert(instance.spec_vars() =~= lit_range(range.start as int, range.end as int));
        instance
    }
}

/// The literals of `stages` one stage after the other, the least
/// significant stage first.
pub open spec fn stage_vars(stages: Seq<FullAdderAllocation>) -> Seq<Lit>
    decreases stages.len(),
{
    if stages.len() == 0 {
        Seq::empty()
    } else {
        stage_vars(stages.drop_last()) + stages.last().spec_vars()
    }
}

/// The carry that enters stage `i`: the adder's carry in for the first
/// stage, the carry out of the stage below for every other.
pub open spec fn carry_into(stages: Seq<FullAdderAllocation>, c_in: Lit, i: int) -> Lit {
    if i == 0 {
        c_in
    } else {
        stages[i - 1].c_out_lit()
    }
}

/// The clauses of the first `n` stages, the least significant stage first.
pub open spec fn ripple_clauses(
    stages: Seq<FullAdderAllocation>,
    a: Seq<Lit>,
    b: Seq<Lit>,
    c_in: Lit,
    n: nat,
) -> Seq<Seq<Lit>>
    decreases n,
{
    if n == 0 {
        Seq::empty()
    } else {
        ripple_clauses(stages, a, b, c_in, (n - 1) as nat) + stages[n - 1].spec_synthesize(
            (a[n - 1], b[n - 1], carry_into(stages, c_in, n - 1)),
        )
    }
}

/// The number that `bits` spell, the least significant bit first.
pub open spec fn bits_value(bits: Seq<bool>) -> nat
    decreases bits.len(),
{
    if bits.len() == 0 {
        0
    } else {
        (if bits[0] {
            1nat
        } else {
            0nat
        }) + 2 * bits_value(bits.drop_first())
    }
}

/// The 64-bit two's-complement number with the low 64 bits of `value`.
pub open spec fn wrap_i64(value: nat) -> int {
    let low = value as int % 0x1_0000_0000_0000_0000;
    if low < 0x8000_0000_0000_0000 {
        low
    } else {
        low - 0x1_0000_0000_0000_0000
    }
}

/// A ripple-carry adder: one full adder for each bit, the least
/// significant first, on consecutive ranges of five literals.
pub struct RippleAdderAllocation {
    adders: Vec<FullAdderAllocation>,
}

/// The output wires of a ripple-carry adder.
pub struct RippleAdderOutput {
    /// The sum wires, the least significant first.
    pub s: Vec<Lit>,
    /// The carry out of the most significant stage.
    pub c_out: Lit,
}

/// The output wires of a ripple-carry adder as a mathematical value.
pub struct RippleAdderOutputView {
    pub s: Seq<Lit>,
    pub c_out: Lit,
}

impl vstd::view::View for RippleAdderOutput {
    type V = RippleAdderOutputView;

    open spec fn view(&self) -> RippleAdderOutputView {
        RippleAdderOutputView { s: self.s@, c_out: self.c_out }
    }
}

/// The addends and the carry in of a ripple-carry adder, each addend with
/// its least significant bit first.
pub struct RippleAdderInput {
    pub a: Vec<Lit>,
    pub b: Vec<Lit>,
    pub c_in: Lit,
}

impl RippleAdderAllocation {
    /// The full adders, the least significant stage first.
    pub closed spec fn stages(&self) -> Seq<FullAdderAllocation> {
        self.adders@
    }

    /// The sum wires, the least significant first.
    pub open spec fn sum_lits(&self) -> Seq<Lit> {
        Seq::new(self.stages().len(), |i: int| self.stages()[i].s_lit())
    }

    /// The truth values that `assignment` gives the sum wires: a wire is
    /// true unless the entry of its variable is negative.
    pub open spec fn sum_bits(&self, assignment: Seq<Lit>) -> Seq<bool> {
        Seq::new(
            self.stages().len(),
            |i: int| assignment[variable(self.stages()[i].s_lit())] >= 0,
        )
    }
}

impl Allocation for RippleAdderAllocation {
    type Output = RippleAdderOutput;

    open spec fn wf(&self) -> bool {
        &&& self.stages().len() >= 1
        &&& forall|i: int|
            0 <= i < self.stages().len() ==> {
                &&& (#[trigger] self.stages()[i]).wf()
                &&& self.stages()[i].s_lit() == self.stages()[0].s_lit() + 5 * i
            }
    }

    open spec fn spec_vars(&self) -> Seq<Lit> {
        stage_vars(self.stages())
    }

    open spec fn spec_outputs(&self) -> RippleAdderOutputView {
        RippleAdderOutputView { s: self.sum_lits(), c_out: self.stages().last().c_out_lit() }
    }

    fn vars(&self) -> (vars: Vec<Lit>) {
        let mut vars: Vec<Lit> = Vec::new();
        let mut i: usize = 0;
        while i < self.adders.len()
            invariant
                i <= self.adders.len(),
                self.wf(),
                vars@ == stage_vars(self.stages().take(i as int)),
            decreases self.adders.len() - i,
        {
            let mut stage = self.adders[i].vars();
            vars.append(&mut stage);
            proof {
                let upto = self.stages().take(i + 1);
                assert(upto.drop_last() =~= self.stages().take(i as int));
                assert(upto.last() == self.stages()[i as int]);
            }
            i += 1;
        }
        assert(self.stages().take(i as int) =~= self.stages());
        vars
    }

    fn outputs(&self) -> (outputs: RippleAdderOutput) {
        let mut s: Vec<Lit> = Vec::new();
        let mut i: usize = 0;
        while i < self.adders.len()
            invariant
                i <= self.adders.len(),
                s@ =~= self.sum_lits().take(i as int),
            decreases self.adders.len() - i,
        {
            s.push(self.adders[i].s.outputs());
            i += 1;
        }
        let c_out = self.adders[self.adders.len() - 1].c_out.outputs();
        assert(s@ =~= self.sum_lits());
        RippleAdderOutput { s, c_out }
    }
}

impl Synthesize<RippleAdderInput> for RippleAdderAllocation {
    /// Both addends are as wide as the adder, and the inputs and the
    /// first literal of the adder, so every literal of it, can be negated.
    open spec fn accepts(&self, input: RippleAdderInput) -> bool {
        &&& input.a@.len() == self.stages().len()
        &&& input.b@.len() == self.stages().len()
        &&& all_negatable(input.a@)
        &&& all_negatable(input.b@)
        &&& negatable(input.c_in)
        &&& negatable(self.stages()[0].s_lit())
    }

    open spec fn spec_synthesize(&self, input: RippleAdderInput) -> Seq<Seq<Lit>> {
        ripple_clauses(self.stages(), input.a@, input.b@, input.c_in, self.stages().len())
    }

    fn synthesize(&self, input: RippleAdderInput) -> (clauses: Vec<Clause>) {
        let mut result: Vec<Clause> = Vec::new();
        let mut c_in: Lit = input.c_in;
        let mut i: usize = 0;
        while i < input.a.len()
            invariant
                i <= input.a.len(),
                self.wf(),
                self.accepts(input),
                c_in == carry_into(self.stages(), input.c_in, i as int),
                negatable(c_in),
                result.deep_view() == ripple_clauses(
                    self.stages(),
                    input.a@,
                    input.b@,
                    input.c_in,
                    i as nat,
                ),
            decreases input.a.len() - i,
        {
            let a: Lit = input.a[i];
            let b: Lit = input.b[i];
            let adder = &self.adders[i];
            let output = adder.outputs();
            proof {
                let wires = adder.spec_vars();
                assert(self.stages()[i as int].wf());
                assert forall|k: int| 0 <= k < wires.len() implies negatable(#[trigger] wires[k]) by {}
            }
            append_clauses(&mut result, adder.synthesize((a, b, c_in)));
            c_in = output.c_out;
            i += 1;
        }
        result
    }
}

/// Emitting the clauses again for the same inputs gives the same clauses
/// in the same order: an instance keeps no state between calls.
pub proof fn law_synthesize_repeats(
    adder: RippleAdderAllocation,
    input: RippleAdderInput,
    first: Vec<Clause>,
    second: Vec<Clause>,
)
    requires
        adder.wf(),
        adder.accepts(input),
        call_ensures(
            <RippleAdderAllocation as Synthesize<RippleAdderInput>>::synthesize,
            (&adder, input),
            first,
        ),
        call_ensures(
            <RippleAdderAllocation as Synthesize<RippleAdderInput>>::synthesize,
            (&adder, input),
            second,
        ),
    ensures
        first.deep_view() == second.deep_view(),
{
}

/// The template of the ripple-carry adder of a given width.
pub struct RippleAdder {
    width: isize,
}

impl RippleAdder {
    /// The number of bits of each addend.
    pub closed spec fn spec_width(&self) -> int {
        self.width as int
    }

    /// The template of the adder of `width` bits.
    pub fn new(width: isize) -> (adder: Self)
        ensures
            adder.spec_width() == width,
    {
        RippleAdder { width }
    }
}

impl Allocate for RippleAdder {
    type Result = RippleAdderAllocation;

    /// The adder has at least one bit, and its size is representable.
    open spec fn valid(&self) -> bool {
        1 <= self.spec_width() && 5 * self.spec_width() <= isize::MAX
    }

    open spec fn spec_size(&self) -> int {
        5 * self.spec_width()
    }

    proof fn lemma_size_is_natural(&self) {
    }

    fn size(&self) -> (size: isize) {
        self.width * FullAdder.size()
    }

    fn allocate(&self, range: Range<Lit>) -> (instance: RippleAdderAllocation)
        ensures
            instance.stages().len() == self.spec_width(),
            instance.stages()[0].s_lit() == range.start,
    {
        let mut adders: Vec<FullAdderAllocation> = Vec::new();
        let mut i: isize = 0;
        while i < self.width
            invariant
                0 <= i <= self.width,
                self.valid(),
                range.end - range.start == 5 * self.width,
                adders@.len() == i,
                forall|j: int|
                    0 <= j < i ==> {
                        &&& (#[trigger] adders@[j]).wf()
                        &&& adders@[j].s_lit() == range.start + 5 * j
                    },
                stage_vars(adders@) == lit_range(range.start as int, range.start + 5 * i),
            decreases self.width - i,
        {
            let lo: Lit = range.start + i * FullAdder.size();
            let hi: Lit = range.start + (i + 1) * FullAdder.size();
            let adder = FullAdder.allocate(lo..hi);
            proof {
                assert(adder.spec_vars()[0] == lit_range(lo as int, hi as int)[0]);
                let grown = adders@.push(adder);
                assert(grown.drop_last() =~= adders@);
                assert(stage_vars(grown) =~= lit_range(range.start as int, range.start + 5 * (i + 1)));
            }
            adders.push(adder);
            i += 1;
        }
        RippleAdderAllocation { adders }
    }
}

/// The sum and the carry out that an assignment gives a ripple-carry
/// adder.
#[derive(Debug)]
pub struct RippleAdderView {
    /// The sum wires read as a two's-complement number of 64 bits. A wire
    /// counts as true unless the entry of its variable is negative.
    pub s: i64,
    /// The carry out of the most significant stage: true where the entry
    /// of its variable is positive.
    pub c_out: bool,
}

/// The index of the entry that an assignment holds for the variable of `l`.
fn var_index(l: Lit) -> (index: usize)
    requires
        negatable(l),
    ensures
        index == variable(l),
{
    if l < 0 {
        (-l) as usize
    } else {
        l as usize
    }
}

impl View<RippleAdderView> for RippleAdderAllocation {
    /// The outcome is unsatisfiable, or the variables of the adder are
    /// representable and the assignment has an entry for the variable of
    /// every sum wire and of the carry out.
    open spec fn covers(&self, s: Sat) -> bool {
        s.0 matches Some(assignment) ==> {
            &&& negatable(self.stages()[0].s_lit())
            &&& forall|i: int|
                0 <= i < self.stages().len() ==> variable(#[trigger] self.sum_lits()[i])
                    < assignment@.len()
            &&& variable(self.stages().last().c_out_lit()) < assignment@.len()
        }
    }

    /// Nothing for the unsatisfiable outcome. Otherwise the number that
    /// the sum wires spell, of which 64 bits are kept, and the carry out.
    open spec fn spec_view(&self, s: Sat) -> Option<RippleAdderView> {
        match s.0 {
            None => None,
            Some(assignment) => Some(
                RippleAdderView {
                    s: wrap_i64(bits_value(self.sum_bits(assignment@))) as i64,
                    c_out: assignment@[variable(self.stages().last().c_out_lit())] > 0,
                },
            ),
        }
    }

    fn view(&self, s: Sat) -> (decoded: Option<RippleAdderView>) {
        let assignment = match s.0 {
            None => { return None; },
            Some(assignment) => assignment,
        };
        let outputs = self.outputs();
        let ghost bits = self.sum_bits(assignment@);
        let mut sum: u64 = 0;
        let mut i: usize = outputs.s.len();
        proof {
            assert(bits.skip(i as int) =~= Seq::<bool>::empty());
        }
        while i > 0
            invariant
                i <= outputs.s.len(),
                self.wf(),
                self.covers(s),
                s.0 == Some(assignment),
                outputs@ == self.spec_outputs(),
                bits == self.sum_bits(assignment@),
                sum == bits_value(bits.skip(i as int)) % 0x1_0000_0000_0000_0000,
            decreases i,
        {
            i -= 1;
            let bit: Lit = outputs.s[i];
            proof {
                assert(self.sum_lits()[i as int] == bit);
                assert(self.stages()[i as int].wf());
            }
            let entry: Lit = assignment[var_index(bit)];
            let low: u64 = if entry >= 0 {
                1
            } else {
                0
            };
            let ghost before = sum;
            sum = (sum << 1) | low;
            proof {
                let rest = bits.skip(i + 1);
                assert(bits.skip(i as int).drop_first() =~= rest);
                assert(bits.skip(i as int)[0] == (entry >= 0));
                assert(sum == (2 * before + low) % 0x1_0000_0000_0000_0000) by (bit_vector)
                    requires
                        sum == (before << 1) | low,
                        low <= 1,
                ;
                lemma_double_mod(bits_value(rest), low as nat);
            }
        }
        assert(bits.skip(0) =~= bits);
        let c_out_entry: Lit = assignment[var_index(outputs.c_out)];
        let signed: i64 = sum as i64;
        assert(signed == wrap_i64(sum as nat)) by (bit_vector)
            requires
                signed == sum as i64,
        ;
        Some(RippleAdderView { s: signed, c_out: c_out_entry > 0 })
    }
}

/// Doubling and adding a bit commute with taking the low 64 bits.
proof fn lemma_double_mod(value: nat, low: nat)
    ensures
        (2 * (value % 0x1_0000_0000_0000_0000) + low) % 0x1_0000_0000_0000_0000 == (low + 2
            * value) % 0x1_0000_0000_0000_0000,
{
    let m = 0x1_0000_0000_0000_0000int;
    let q = value as int / m;
    let r = value as int % m;
    vstd::arithmetic::div_mod::lemma_fundamental_div_mod(value as int, m);
    assert(low + 2 * value == m * (2 * q) + (2 * r + low)) by (nonlinear_arith)
        requires
            value == m * q + r,
    ;
    vstd::arithmetic::div_mod::lemma_mod_multiples_vanish(2 * q, 2 * r + low, m);
}

} // verus!
