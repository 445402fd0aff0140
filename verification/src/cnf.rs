//! The constraint data model: literals, clauses, constraint sets and
//! assignments.

use vstd::prelude::*;
use crate::bit::{Allocate, Allocation, lit_range};

verus! {

/// A signed reference to a propositional variable. The absolute value is
/// the variable, the sign is the polarity; `0` names no variable.
pub type Lit = isize;

/// The variable that a literal refers to.
pub open spec fn variable(l: Lit) -> int {
    if l < 0 {
        -(l as int)
    } else {
        l as int
    }
}

/// The literal of the same variable and the opposite polarity.
pub open spec fn negated(l: Lit) -> Lit {
    (-(l as int)) as Lit
}

/// Whether the opposite literal fits the machine representation.
pub open spec fn negatable(l: Lit) -> bool {
    l > isize::MIN
}

/// Whether `l` names a variable: it is not `0`, and its variable is
/// representable.
pub open spec fn is_literal(l: Lit) -> bool {
    l != 0 && negatable(l)
}

/// A disjunction of literals.
#[derive(Clone, Debug, PartialEq, Eq)]
pub struct Clause {
    pub lits: Vec<Lit>,
}

impl View for Clause {
    type V = Seq<Lit>;

    open spec fn view(&self) -> Seq<Lit> {
        self.lits@
    }
}

impl DeepView for Clause {
    type V = Seq<Lit>;

    open spec fn deep_view(&self) -> Seq<Lit> {
        self.lits@
    }
}

impl From<Vec<Lit>> for Clause {
    fn from(lits: Vec<Lit>) -> (clause: Clause) {
        Clause { lits }
    }
}

impl vstd::std_specs::convert::FromSpecImpl<Vec<Lit>> for Clause {
    open spec fn obeys_from_spec() -> bool {
        true
    }

    open spec fn from_spec(lits: Vec<Lit>) -> Clause {
        Clause { lits }
    }
}

/// Whether every literal of `clauses` is on a variable below `top`.
pub open spec fn bounded(clauses: Seq<Seq<Lit>>, top: int) -> bool {
    forall|i: int, j: int|
        0 <= i < clauses.len() && 0 <= j < clauses[i].len() ==> variable(
            #[trigger] clauses[i][j],
        ) < top
}

/// Whether some literal of `clauses` is on the variable `v`.
pub open spec fn mentions(clauses: Seq<Seq<Lit>>, v: int) -> bool {
    exists|i: int, j: int|
        0 <= i < clauses.len() && 0 <= j < clauses[i].len() && variable(#[trigger] clauses[i][j])
            == v
}

/// A conjunction of clauses, with the next unused variable.
#[derive(Clone, Debug, PartialEq, Eq)]
pub struct Cnf {
    pub clauses: Vec<Clause>,
    /// The next unused variable: every literal of every clause is on a
    /// variable below it.
    pub top: Lit,
}

impl Cnf {
    /// Whether `top` is a variable that no clause uses, nor any above it.
    pub open spec fn wf(&self) -> bool {
        self.top >= 1 && bounded(self.clauses.deep_view(), self.top as int)
    }

    /// The constraint set of `clauses`, with the least `top` that is valid
    /// for them: one more than the largest variable used, and `1` where no
    /// variable is used.
    pub fn from(clauses: Vec<Clause>) -> (cnf: Cnf)
        requires
            bounded(clauses.deep_view(), isize::MAX as int),
        ensures
            cnf.clauses == clauses,
            cnf.wf(),
            cnf.top == 1 || mentions(clauses.deep_view(), cnf.top - 1),
    {
        let ghost view = clauses.deep_view();
        let mut top: Lit = 1;
        let mut i: usize = 0;
        while i < clauses.len()
            invariant
                i <= clauses.len(),
                view == clauses.deep_view(),
                bounded(view, isize::MAX as int),
                1 <= top,
                bounded(view.take(i as int), top as int),
                top == 1 || mentions(view.take(i as int), top - 1),
            decreases clauses.len() - i,
        {
            let lits = &clauses[i].lits;
            assert(lits@ == view[i as int]);
            let mut j: usize = 0;
            while j < lits.len()
                invariant
                    j <= lits.len(),
                    i < clauses.len(),
                    view == clauses.deep_view(),
                    lits@ == view[i as int],
                    bounded(view, isize::MAX as int),
                    1 <= top,
                    bounded(view.take(i as int), top as int),
                    forall|k: int| 0 <= k < j ==> variable(#[trigger] lits@[k]) < top,
                    top == 1 || mentions(view.take(i as int), top - 1) || exists|k: int|
                        0 <= k < j && variable(#[trigger] lits@[k]) == top - 1,
                decreases lits.len() - j,
            {
                let lit: Lit = lits[j];
                assert(variable(view[i as int][j as int]) < isize::MAX);
                let var: Lit = if lit < 0 {
                    -lit
                } else {
                    lit
                };
                if var >= top {
                    top = var + 1;
                }
                j += 1;
            }
            proof {
                let grown = view.take(i + 1);
                assert forall|x: int, y: int|
                    0 <= x < grown.len() && 0 <= y < grown[x].len() implies variable(
                    #[trigger] grown[x][y],
                ) < top by {
                    if x < i {
                        assert(view.take(i as int)[x][y] == grown[x][y]);
                    }
                }
                if top != 1 {
                    if mentions(view.take(i as int), top - 1) {
                        let (x, y) = choose|x: int, y: int|
                            0 <= x < i && 0 <= y < view.take(i as int)[x].len() && variable(
                                #[trigger] view.take(i as int)[x][y],
                            ) == top - 1;
                        assert(variable(grown[x][y]) == top - 1);
                    } else {
                        let k = choose|k: int|
                            0 <= k < lits@.len() && variable(#[trigger] lits@[k]) == top - 1;
                        assert(variable(grown[i as int][k]) == top - 1);
                    }
                }
            }
            i += 1;
        }
        assert(view.take(i as int) =~= view);
        Cnf { clauses, top }
    }

    /// Builds an instance of `template` on the next unused variables and
    /// advances `top` past them, so that no variable is handed out twice.
    pub fn allocate<T: Allocate>(&mut self, template: &T) -> (instance: T::Result)
        requires
            template.valid(),
            old(self).top + template.spec_size() <= isize::MAX,
        ensures
            final(self).clauses == old(self).clauses,
            final(self).top == old(self).top + template.spec_size(),
            old(self).wf() ==> final(self).wf(),
            instance.wf(),
            instance.spec_vars() == lit_range(old(self).top as int, final(self).top as int),
    {
        let new_top: Lit = self.top + template.size();
        let instance = template.allocate(self.top..new_top);
        self.top = new_top;
        instance
    }
}

/// What a solver reports: `None` when the constraint set is
/// unsatisfiable, otherwise a vector that holds at index `v` the literal of
/// variable `v` with the polarity it has in the model found, or `0` where
/// the solver did not mention `v`.
#[derive(Clone, Debug, PartialEq, Eq)]
pub struct Sat(pub Option<Vec<Lit>>);

} // verus!
