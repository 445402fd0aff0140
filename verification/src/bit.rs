//! Templates and instances of the primitive gates, and the clauses each
//! instance emits.
//!
//! A template says how many fresh literals an instance needs. The caller
//! keeps one counter of the next unused variable, hands the template the
//! range that starts there and is as long as the template's size, and
//! advances the counter by that size. No variable is then handed out twice.

use vstd::prelude::*;
use vstd::view::View as _;
use std::ops::Range;
use crate::cnf::{Clause, Lit, Sat, negatable, negated};

verus! {

/// The literals `lo, lo + 1, .., hi - 1` in ascending order.
pub open spec fn lit_range(lo: int, hi: int) -> Seq<Lit> {
    Seq::new((hi - lo) as nat, |i: int| (lo + i) as Lit)
}

/// Whether every literal of `lits` can be negated.
pub open spec fn all_negatable(lits: Seq<Lit>) -> bool {
    forall|i: int| 0 <= i < lits.len() ==> negatable(#[trigger] lits[i])
}

/// A range that does not wrap holds each literal from `lo` up to `hi`,
/// `hi` left out, exactly once.
pub proof fn lemma_lit_range(lo: int, hi: int)
    requires
        isize::MIN <= lo <= hi <= isize::MAX,
    ensures
        lit_range(lo, hi).len() == hi - lo,
        lit_range(lo, hi).no_duplicates(),
        forall|l: Lit| lit_range(lo, hi).contains(l) <==> lo <= l < hi,
{
    let range = lit_range(lo, hi);
    assert forall|l: Lit| lo <= l < hi implies range.contains(l) by {
        assert(range[l - lo] == l);
    }
}

/// An instance: the owner of a contiguous range of fresh literals.
pub trait Allocation {
    type Output: vstd::view::View;

    /// Whether the instance is laid out as an allocation builds it.
    spec fn wf(&self) -> bool;

    /// The literals that the instance owns, in the order of allocation.
    spec fn spec_vars(&self) -> Seq<Lit>;

    /// The literals of the output wires.
    spec fn spec_outputs(&self) -> <Self::Output as vstd::view::View>::V;

    /// Enumerates the literals that the instance owns.
    fn vars(&self) -> (vars: Vec<Lit>)
        requires
            self.wf(),
        ensures
            vars@ == self.spec_vars(),
    ;

    /// Reports the literals of the output wires.
    fn outputs(&self) -> (outputs: Self::Output)
        requires
            self.wf(),
        ensures
            outputs@ == self.spec_outputs(),
    ;
}

/// A template: it says how many fresh literals an instance needs and builds
/// the instance over a range of exactly that length.
pub trait Allocate {
    type Result: Allocation;

    /// Whether the template describes a circuit that can be built.
    spec fn valid(&self) -> bool;

    /// The number of fresh literals an instance owns.
    spec fn spec_size(&self) -> int;

    /// No template of a circuit that can be built has a negative size.
    proof fn lemma_size_is_natural(&self)
        requires
            self.valid(),
        ensures
            self.spec_size() >= 0,
    ;

    /// The number of fresh literals an instance needs. The inputs of the
    /// circuit are not counted: the caller supplies them.
    fn size(&self) -> (size: isize)
        requires
            self.valid(),
        ensures
            size == self.spec_size(),
            size >= 0,
    ;

    /// Builds the instance that owns the literals of `range`, which must
    /// be exactly as long as the template's size.
    fn allocate(&self, range: Range<Lit>) -> (instance: Self::Result)
        requires
            self.valid(),
            range.end - range.start == self.spec_size(),
        ensures
            instance.wf(),
            instance.spec_vars() == lit_range(range.start as int, range.end as int),
    ;
}

/// Whatever instance a template builds over a range, the literals that the
/// instance enumerates are those of the range: each of them, once, in
/// ascending order.
pub proof fn law_vars_are_the_range<T: Allocate>(
    template: T,
    range: Range<Lit>,
    instance: T::Result,
    vars: Vec<Lit>,
)
    requires
        template.valid(),
        range.end - range.start == template.spec_size(),
        call_ensures(T::allocate, (&template, range), instance),
        call_ensures(<T::Result as Allocation>::vars, (&instance,), vars),
    ensures
        vars@ == lit_range(range.start as int, range.end as int),
        vars@.len() == template.spec_size(),
        vars@.no_duplicates(),
        forall|l: Lit| vars@.contains(l) <==> range.start <= l < range.end,
{
    template.lemma_size_is_natural();
    lemma_lit_range(range.start as int, range.end as int);
}

/// The capability of an instance to emit, for inputs of shape `I`, the
/// clauses that tie its wires to them.
pub trait Synthesize<I>: Allocation {
    /// Whether the inputs fit the instance and every literal that the
    /// clauses negate can be negated.
    spec fn accepts(&self, input: I) -> bool;

    /// The clauses emitted, in order.
    spec fn spec_synthesize(&self, input: I) -> Seq<Seq<Lit>>;

    /// Emits the clauses that force the relation between `input` and the
    /// wires of the instance.
    fn synthesize(&self, input: I) -> (clauses: Vec<Clause>)
        requires
            self.wf(),
            self.accepts(input),
        ensures
            clauses.deep_view() == self.spec_synthesize(input),
    ;
}

/// The capability of an instance to project an assignment onto its outputs
/// as a value of type `V`.
pub trait View<V>: Allocation {
    /// Whether the assignment has an entry for every variable that the
    /// projection reads.
    spec fn covers(&self, s: Sat) -> bool;

    /// The projection: `None` exactly for the unsatisfiable outcome.
    spec fn spec_view(&self, s: Sat) -> Option<V>;

    /// Projects what a solver reported onto the outputs of the instance.
    fn view(&self, s: Sat) -> (decoded: Option<V>)
        requires
            self.wf(),
            self.covers(s),
        ensures
            decoded == self.spec_view(s),
    ;
}

/// Appends the clause made of `lits`.
fn push_clause(clauses: &mut Vec<Clause>, lits: Vec<Lit>)
    ensures
        final(clauses).deep_view() == old(clauses).deep_view().push(lits@),
{
    let ghost before = clauses.deep_view();
    let ghost added = lits@;
    clauses.push(Clause { lits });
    assert(clauses.deep_view() =~= before.push(added));
}

/// Appends the clauses of `more`, in order.
pub(crate) fn append_clauses(clauses: &mut Vec<Clause>, more: Vec<Clause>)
    ensures
        final(clauses).deep_view() == old(clauses).deep_view() + more.deep_view(),
{
    let ghost before = clauses.deep_view();
    let ghost added = more.deep_view();
    let mut more = more;
    clauses.append(&mut more);
    assert(clauses.deep_view() =~= before + added);
}

/// One unit clause for each literal of `inputs`.
pub open spec fn unit_clauses(inputs: Seq<Lit>) -> Seq<Seq<Lit>> {
    Seq::new(inputs.len(), |i: int| seq![inputs[i]])
}

/// The single clause of the inverter: `x` and `out` are not both true.
/// Nothing forces `out` true where `x` is false.
pub open spec fn not_clauses(x: Lit, out: Lit) -> Seq<Seq<Lit>> {
    seq![seq![negated(x), negated(out)]]
}

/// The clauses of the conjunction of `inputs` with output `out`: for each
/// input the clause `(input | !out)`, then `(!input_1 | .. | !input_n | out)`.
pub open spec fn all_clauses(inputs: Seq<Lit>, out: Lit) -> Seq<Seq<Lit>> {
    Seq::new(inputs.len(), |i: int| seq![inputs[i], negated(out)]).push(
        Seq::new(inputs.len(), |i: int| negated(inputs[i])).push(out),
    )
}

/// The clauses of the disjunction of `inputs` with output `out`: for each
/// input the clause `(!input | out)`, then `(input_1 | .. | input_n | !out)`.
pub open spec fn any_clauses(inputs: Seq<Lit>, out: Lit) -> Seq<Seq<Lit>> {
    Seq::new(inputs.len(), |i: int| seq![negated(inputs[i]), out]).push(
        inputs.push(negated(out)),
    )
}

/// The clauses of `out <==> a & b`.
pub open spec fn and_clauses(a: Lit, b: Lit, out: Lit) -> Seq<Seq<Lit>> {
    seq![seq![negated(a), negated(b), out], seq![a, negated(out)], seq![b, negated(out)]]
}

/// The clauses of `out <==> a | b`.
pub open spec fn or_clauses(a: Lit, b: Lit, out: Lit) -> Seq<Seq<Lit>> {
    seq![seq![a, b, negated(out)], seq![negated(a), out], seq![negated(b), out]]
}

/// The clauses of `out <==> a ^ b`: each forbids one row of the truth table
/// in which `out` differs from `a ^ b`.
pub open spec fn xor2_clauses(a: Lit, b: Lit, out: Lit) -> Seq<Seq<Lit>> {
    seq![
        seq![negated(a), negated(b), negated(out)],
        seq![a, b, negated(out)],
        seq![a, negated(b), out],
        seq![negated(a), b, out],
    ]
}

/// The clauses of `out <==> a ^ b ^ c`, one for each forbidden row.
pub open spec fn xor3_clauses(a: Lit, b: Lit, c: Lit, out: Lit) -> Seq<Seq<Lit>> {
    seq![
        seq![negated(a), negated(b), negated(c), out],
        seq![negated(a), negated(b), c, negated(out)],
        seq![negated(a), b, negated(c), negated(out)],
        seq![negated(a), b, c, out],
        seq![a, negated(b), negated(c), negated(out)],
        seq![a, negated(b), c, out],
        seq![a, b, negated(c), out],
        seq![a, b, c, negated(out)],
    ]
}

/// A free variable that no clause constrains.
pub struct BitAllocation(Lit);

impl BitAllocation {
    /// The literal of the wire that the instance owns.
    pub closed spec fn lit(&self) -> Lit {
        self.0
    }
}

impl Allocation for BitAllocation {
    type Output = Lit;

    open spec fn wf(&self) -> bool {
        true
    }

    open spec fn spec_vars(&self) -> Seq<Lit> {
        seq![self.lit()]
    }

    open spec fn spec_outputs(&self) -> Lit {
        self.lit()
    }

    fn vars(&self) -> (vars: Vec<Lit>) {
        vec![self.0]
    }

    fn outputs(&self) -> (outputs: Lit) {
        self.0
    }
}

impl Synthesize<()> for BitAllocation {
    open spec fn accepts(&self, input: ()) -> bool {
        true
    }

    open spec fn spec_synthesize(&self, input: ()) -> Seq<Seq<Lit>> {
        Seq::empty()
    }

    fn synthesize(&self, input: ()) -> (clauses: Vec<Clause>) {
        let clauses: Vec<Clause> = Vec::new();
        assert(clauses.deep_view() =~= Seq::<Seq<Lit>>::empty());
        clauses
    }
}

/// The template of a constant bit: one variable, whose value the caller asserts.
pub struct Bit;

impl Allocate for Bit {
    type Result = BitAllocation;

    open spec fn valid(&self) -> bool {
        true
    }

    open spec fn spec_size(&self) -> int {
        1
    }

    proof fn lemma_size_is_natural(&self) {
    }

    fn size(&self) -> (size: isize) {
        1
    }

    fn allocate(&self, range: Range<Lit>) -> (instance: BitAllocation)
        ensures
            instance.lit() == range.start,
    {
        let instance = BitAllocation(range.start);
        assert(instance.spec_vars() =~= lit_range(range.start as int, range.end as int));
        instance
    }
}

/// Forces every literal it is given: it owns no literal and emits one unit
/// clause for each input.
pub struct Assert;

impl Allocation for Assert {
    type Output = ();

    open spec fn wf(&self) -> bool {
        true
    }

    open spec fn spec_vars(&self) -> Seq<Lit> {
        Seq::empty()
    }

    open spec fn spec_outputs(&self) -> () {
        ()
    }

    fn vars(&self) -> (vars: Vec<Lit>) {
        Vec::new()
    }

    fn outputs(&self) -> (outputs: ()) {
        ()
    }
}

impl Synthesize<Vec<Lit>> for Assert {
    open spec fn accepts(&self, input: Vec<Lit>) -> bool {
        true
    }

    open spec fn spec_synthesize(&self, input: Vec<Lit>) -> Seq<Seq<Lit>> {
        unit_clauses(input@)
    }

    fn synthesize(&self, input: Vec<Lit>) -> (clauses: Vec<Clause>) {
        let mut clauses: Vec<Clause> = Vec::new();
        let mut i: usize = 0;
        while i < input.len()
            invariant
                i <= input.len(),
                clauses.deep_view() =~= Seq::new(i as nat, |j: int| seq![input@[j]]),
            decreases input.len() - i,
        {
            let lit: Lit = input[i];
            let unit: Vec<Lit> = vec![lit];
            assert(unit@ =~= seq![input@[i as int]]);
            push_clause(&mut clauses, unit);
            i += 1;
        }
        assert(clauses.deep_view() =~= unit_clauses(input@));
        clauses
    }
}

/// An inverter.
pub struct NotAllocation(Lit);

impl NotAllocation {
    /// The literal of the wire that the instance owns.
    pub closed spec fn lit(&self) -> Lit {
        self.0
    }
}

impl Allocation for NotAllocation {
    type Output = Lit;

    open spec fn wf(&self) -> bool {
        true
    }

    open spec fn spec_vars(&self) -> Seq<Lit> {
        seq![self.lit()]
    }

    open spec fn spec_outputs(&self) -> Lit {
        self.lit()
    }

    fn vars(&self) -> (vars: Vec<Lit>) {
        vec![self.0]
    }

    fn outputs(&self) -> (outputs: Lit) {
        self.0
    }
}

impl Synthesize<Lit> for NotAllocation {
    open spec fn accepts(&self, input: Lit) -> bool {
        negatable(input) && negatable(self.lit())
    }

    open spec fn spec_synthesize(&self, input: Lit) -> Seq<Seq<Lit>> {
        not_clauses(input, self.lit())
    }

    fn synthesize(&self, input: Lit) -> (clauses: Vec<Clause>) {
        let not_input: Lit = -input;
        let not_output: Lit = -self.0;
        let clauses = vec![Clause { lits: vec![not_input, not_output] }];
        assert(clauses.deep_view() =~= not_clauses(input, self.0));
        clauses
    }
}

/// The template of the inverter.
pub struct Not;

impl Allocate for Not {
    type Result = NotAllocation;

    open spec fn valid(&self) -> bool {
        true
    }

    open spec fn spec_size(&self) -> int {
        1
    }

    proof fn lemma_size_is_natural(&self) {
    }

    fn size(&self) -> (size: isize) {
        1
    }

    fn allocate(&self, range: Range<Lit>) -> (instance: NotAllocation)
        ensures
            instance.lit() == range.start,
    {
        let instance = NotAllocation(range.start);
        assert(instance.spec_vars() =~= lit_range(range.start as int, range.end as int));
        instance
    }
}

/// A conjunction of any number of inputs.
pub struct AllAllocation(Lit);

impl AllAllocation {
    /// The literal of the wire that the instance owns.
    pub closed spec fn lit(&self) -> Lit {
        self.0
    }
}

impl Allocation for AllAllocation {
    type Output = Lit;

    open spec fn wf(&self) -> bool {
        true
    }

    open spec fn spec_vars(&self) -> Seq<Lit> {
        seq![self.lit()]
    }

    open spec fn spec_outputs(&self) -> Lit {
        self.lit()
    }

    fn vars(&self) -> (vars: Vec<Lit>) {
        vec![self.0]
    }

    fn outputs(&self) -> (outputs: Lit) {
        self.0
    }
}

impl Synthesize<Vec<Lit>> for AllAllocation {
    open spec fn accepts(&self, input: Vec<Lit>) -> bool {
        all_negatable(input@) && negatable(self.lit())
    }

    open spec fn spec_synthesize(&self, input: Vec<Lit>) -> Seq<Seq<Lit>> {
        all_clauses(input@, self.lit())
    }

    fn synthesize(&self, input: Vec<Lit>) -> (clauses: Vec<Clause>) {
        let output: Lit = self.0;
        let not_output: Lit = -output;
        let mut result: Vec<Clause> = Vec::new();
        let mut back_clause: Vec<Lit> = Vec::new();
        let mut i: usize = 0;
        while i < input.len()
            invariant
                i <= input.len(),
                all_negatable(input@),
                not_output == negated(output),
                result.deep_view() =~= Seq::new(i as nat, |j: int| seq![input@[j], not_output]),
                back_clause@ =~= Seq::new(i as nat, |j: int| negated(input@[j])),
            decreases input.len() - i,
        {
            let lit: Lit = input[i];
            let not_lit: Lit = -lit;
            push_clause(&mut result, vec![lit, not_output]);
            back_clause.push(not_lit);
            i += 1;
        }
        back_clause.push(output);
        result.push(Clause::from(back_clause));
        assert(result.deep_view() =~= all_clauses(input@, output));
        result
    }
}

/// The template of the conjunction of any number of inputs.
pub struct All;

impl Allocate for All {
    type Result = AllAllocation;

    open spec fn valid(&self) -> bool {
        true
    }

    open spec fn spec_size(&self) -> int {
        1
    }

    proof fn lemma_size_is_natural(&self) {
    }

    fn size(&self) -> (size: isize) {
        1
    }

    fn allocate(&self, range: Range<Lit>) -> (instance: AllAllocation)
        ensures
            instance.lit() == range.start,
    {
        let instance = AllAllocation(range.start);
        assert(instance.spec_vars() =~= lit_range(range.start as int, range.end as int));
        instance
    }
}

/// A disjunction of any number of inputs.
pub struct AnyAllocation(Lit);

impl AnyAllocation {
    /// The literal of the wire that the instance owns.
    pub closed spec fn lit(&self) -> Lit {
        self.0
    }
}

impl Allocation for AnyAllocation {
    type Output = Lit;

    open spec fn wf(&self) -> bool {
        true
    }

    open spec fn spec_vars(&self) -> Seq<Lit> {
        seq![self.lit()]
    }

    open spec fn spec_outputs(&self) -> Lit {
        self.lit()
    }

    fn vars(&self) -> (vars: Vec<Lit>) {
        vec![self.0]
    }

    fn outputs(&self) -> (outputs: Lit) {
        self.0
    }
}

impl Synthesize<Vec<Lit>> for AnyAllocation {
    open spec fn accepts(&self, input: Vec<Lit>) -> bool {
        all_negatable(input@) && negatable(self.lit())
    }

    open spec fn spec_synthesize(&self, input: Vec<Lit>) -> Seq<Seq<Lit>> {
        any_clauses(input@, self.lit())
    }

    fn synthesize(&self, input: Vec<Lit>) -> (clauses: Vec<Clause>) {
        let output: Lit = self.0;
        let not_output: Lit = -output;
        let mut result: Vec<Clause> = Vec::new();
        let mut back_clause: Vec<Lit> = Vec::new();
        let mut i: usize = 0;
        while i < input.len()
            invariant
                i <= input.len(),
                all_negatable(input@),
                result.deep_view() =~= Seq::new(i as nat, |j: int| seq![negated(input@[j]), output]),
                back_clause@ =~= input@.take(i as int),
            decreases input.len() - i,
        {
            let lit: Lit = input[i];
            let not_lit: Lit = -lit;
            push_clause(&mut result, vec![not_lit, output]);
            back_clause.push(lit);
            i += 1;
        }
        assert(input@.take(i as int) =~= input@);
        back_clause.push(not_output);
        result.push(Clause::from(back_clause));
        assert(result.deep_view() =~= any_clauses(input@, output));
        result
    }
}

/// The template of the disjunction of any number of inputs.
pub struct Any;

impl Allocate for Any {
    type Result = AnyAllocation;

    open spec fn valid(&self) -> bool {
        true
    }

    open spec fn spec_size(&self) -> int {
        1
    }

    proof fn lemma_size_is_natural(&self) {
    }

    fn size(&self) -> (size: isize) {
        1
    }

    fn allocate(&self, range: Range<Lit>) -> (instance: AnyAllocation)
        ensures
            instance.lit() == range.start,
    {
        let instance = AnyAllocation(range.start);
        assert(instance.spec_vars() =~= lit_range(range.start as int, range.end as int));
        instance
    }
}

/// A conjunction of two inputs.
pub struct AndAllocation(Lit);

impl AndAllocation {
    /// The literal of the wire that the instance owns.
    pub closed spec fn lit(&self) -> Lit {
        self.0
    }
}

impl Allocation for AndAllocation {
    type Output = Lit;

    open spec fn wf(&self) -> bool {
        true
    }

    open spec fn spec_vars(&self) -> Seq<Lit> {
        seq![self.lit()]
    }

    open spec fn spec_outputs(&self) -> Lit {
        self.lit()
    }

    fn vars(&self) -> (vars: Vec<Lit>) {
        vec![self.0]
    }

    fn outputs(&self) -> (outputs: Lit) {
        self.0
    }
}

impl Synthesize<(Lit, Lit)> for AndAllocation {
    open spec fn accepts(&self, input: (Lit, Lit)) -> bool {
        negatable(input.0) && negatable(input.1) && negatable(self.lit())
    }

    open spec fn spec_synthesize(&self, input: (Lit, Lit)) -> Seq<Seq<Lit>> {
        and_clauses(input.0, input.1, self.lit())
    }

    fn synthesize(&self, input: (Lit, Lit)) -> (clauses: Vec<Clause>) {
        let (a, b) = input;
        let output: Lit = self.0;
        let not_a: Lit = -a;
        let not_b: Lit = -b;
        let not_output: Lit = -output;
        let clauses = vec![
            Clause { lits: vec![not_a, not_b, output] },
            Clause { lits: vec![a, not_output] },
            Clause { lits: vec![b, not_output] },
        ];
        assert(clauses.deep_view() =~= and_clauses(a, b, output));
        clauses
    }
}

/// The template of the conjunction of two inputs.
pub struct And;

impl Allocate for And {
    type Result = AndAllocation;

    open spec fn valid(&self) -> bool {
        true
    }

    open spec fn spec_size(&self) -> int {
        1
    }

    proof fn lemma_size_is_natural(&self) {
    }

    fn size(&self) -> (size: isize) {
        1
    }

    fn allocate(&self, range: Range<Lit>) -> (instance: AndAllocation)
        ensures
            instance.lit() == range.start,
    {
        let instance = AndAllocation(range.start);
        assert(instance.spec_vars() =~= lit_range(range.start as int, range.end as int));
        instance
    }
}

/// A disjunction of two inputs.
pub struct OrAllocation(Lit);

impl OrAllocation {
    /// The literal of the wire that the instance owns.
    pub closed spec fn lit(&self) -> Lit {
        self.0
    }
}

impl Allocation for OrAllocation {
    type Output = Lit;

    open spec fn wf(&self) -> bool {
        true
    }

    open spec fn spec_vars(&self) -> Seq<Lit> {
        seq![self.lit()]
    }

    open spec fn spec_outputs(&self) -> Lit {
        self.lit()
    }

    fn vars(&self) -> (vars: Vec<Lit>) {
        vec![self.0]
    }

    fn outputs(&self) -> (outputs: Lit) {
        self.0
    }
}

impl Synthesize<(Lit, Lit)> for OrAllocation {
    open spec fn accepts(&self, input: (Lit, Lit)) -> bool {
        negatable(input.0) && negatable(input.1) && negatable(self.lit())
    }

    open spec fn spec_synthesize(&self, input: (Lit, Lit)) -> Seq<Seq<Lit>> {
        or_clauses(input.0, input.1, self.lit())
    }

    fn synthesize(&self, input: (Lit, Lit)) -> (clauses: Vec<Clause>) {
        let (a, b) = input;
        let output: Lit = self.0;
        let not_a: Lit = -a;
        let not_b: Lit = -b;
        let not_output: Lit = -output;
        let clauses = vec![
            Clause { lits: vec![a, b, not_output] },
            Clause { lits: vec![not_a, output] },
            Clause { lits: vec![not_b, output] },
        ];
        assert(clauses.deep_view() =~= or_clauses(a, b, output));
        clauses
    }
}

/// The template of the disjunction of two inputs.
pub struct Or;

impl Allocate for Or {
    type Result = OrAllocation;

    open spec fn valid(&self) -> bool {
        true
    }

    open spec fn spec_size(&self) -> int {
        1
    }

    proof fn lemma_size_is_natural(&self) {
    }

    fn size(&self) -> (size: isize) {
        1
    }

    fn allocate(&self, range: Range<Lit>) -> (instance: OrAllocation)
        ensures
            instance.lit() == range.start,
    {
        let instance = OrAllocation(range.start);
        assert(instance.spec_vars() =~= lit_range(range.start as int, range.end as int));
        instance
    }
}

/// An exclusive-or of two or of three inputs.
pub struct XorAllocation(Lit);

impl XorAllocation {
    /// The literal of the wire that the instance owns.
    pub closed spec fn lit(&self) -> Lit {
        self.0
    }
}

impl Allocation for XorAllocation {
    type Output = Lit;

    open spec fn wf(&self) -> bool {
        true
    }

    open spec fn spec_vars(&self) -> Seq<Lit> {
        seq![self.lit()]
    }

    open spec fn spec_outputs(&self) -> Lit {
        self.lit()
    }

    fn vars(&self) -> (vars: Vec<Lit>) {
        vec![self.0]
    }

    fn outputs(&self) -> (outputs: Lit) {
        self.0
    }
}

impl Synthesize<(Lit, Lit)> for XorAllocation {
    open spec fn accepts(&self, input: (Lit, Lit)) -> bool {
        negatable(input.0) && negatable(input.1) && negatable(self.lit())
    }

    open spec fn spec_synthesize(&self, input: (Lit, Lit)) -> Seq<Seq<Lit>> {
        xor2_clauses(input.0, input.1, self.lit())
    }

    fn synthesize(&self, input: (Lit, Lit)) -> (clauses: Vec<Clause>) {
        let (a, b) = input;
        let output: Lit = self.0;
        let not_a: Lit = -a;
        let not_b: Lit = -b;
        let not_output: Lit = -output;
        let clauses = vec![
            Clause { lits: vec![not_a, not_b, not_output] },
            Clause { lits: vec![a, b, not_output] },
            Clause { lits: vec![a, not_b, output] },
            Clause { lits: vec![not_a, b, output] },
        ];
        assert(clauses.deep_view() =~= xor2_clauses(a, b, output));
        clauses
    }
}

impl Synthesize<(Lit, Lit, Lit)> for XorAllocation {
    open spec fn accepts(&self, input: (Lit, Lit, Lit)) -> bool {
        negatable(input.0) && negatable(input.1) && negatable(input.2) && negatable(self.lit())
    }

    open spec fn spec_synthesize(&self, input: (Lit, Lit, Lit)) -> Seq<Seq<Lit>> {
        xor3_clauses(input.0, input.1, input.2, self.lit())
    }

    fn synthesize(&self, input: (Lit, Lit, Lit)) -> (clauses: Vec<Clause>) {
        let (a, b, c) = input;
        let output: Lit = self.0;
        let not_a: Lit = -a;
        let not_b: Lit = -b;
        let not_c: Lit = -c;
        let not_output: Lit = -output;
        let clauses = vec![
            Clause { lits: vec![not_a, not_b, not_c, output] },
            Clause { lits: vec![not_a, not_b, c, not_output] },
            Clause { lits: vec![not_a, b, not_c, not_output] },
            Clause { lits: vec![not_a, b, c, output] },
            Clause { lits: vec![a, not_b, not_c, not_output] },
            Clause { lits: vec![a, not_b, c, output] },
            Clause { lits: vec![a, b, not_c, output] },
            Clause { lits: vec![a, b, c, not_output] },
        ];
        assert(clauses.deep_view() =~= xor3_clauses(a, b, c, output));
        clauses
    }
}

/// The template of the exclusive-or.
pub struct Xor;

impl Allocate for Xor {
    type Result = XorAllocation;

    open spec fn valid(&self) -> bool {
        true
    }

    open spec fn spec_size(&self) -> int {
        1
    }

    proof fn lemma_size_is_natural(&self) {
    }

    fn size(&self) -> (size: isize) {
        1
    }

    fn allocate(&self, range: Range<Lit>) -> (instance: XorAllocation)
        ensures
            instance.lit() == range.start,
    {
        let instance = XorAllocation(range.start);
        assert(instance.spec_vars() =~= lit_range(range.start as int, range.end as int));
        instance
    }
}

} // verus!
