//! The text in which a constraint set is handed to a solver: a header
//! line with the number of variables and of clauses, then one line for
//! each clause, its literals separated by blanks and closed by `0`.

use vstd::prelude::*;
use crate::cnf::{Clause, Cnf, Lit};

verus! {

/// The character of the decimal digit `d`.
pub open spec fn digit(d: nat) -> char {
    if d == 0 {
        '0'
    } else if d == 1 {
        '1'
    } else if d == 2 {
        '2'
    } else if d == 3 {
        '3'
    } else if d == 4 {
        '4'
    } else if d == 5 {
        '5'
    } else if d == 6 {
        '6'
    } else if d == 7 {
        '7'
    } else if d == 8 {
        '8'
    } else {
        '9'
    }
}

/// The decimal digits of `n`, the most significant first, without
/// leading zeros.
pub open spec fn digits(n: nat) -> Seq<char>
    decreases n,
{
    if n < 10 {
        seq![digit(n)]
    } else {
        digits(n / 10).push(digit(n % 10))
    }
}

/// The decimal numeral of `n`, with a minus sign where `n` is negative.
pub open spec fn decimal(n: int) -> Seq<char> {
    if n < 0 {
        seq!['-'] + digits((-n) as nat)
    } else {
        digits(n as nat)
    }
}

/// Each literal as a decimal numeral followed by a blank.
pub open spec fn literals_text(lits: Seq<Lit>) -> Seq<char>
    decreases lits.len(),
{
    if lits.len() == 0 {
        Seq::empty()
    } else {
        literals_text(lits.drop_last()) + decimal(lits.last() as int) + seq![' ']
    }
}

/// The line of a clause, without its line break: the literals, each
/// followed by a blank, then `0`.
pub open spec fn clause_text(lits: Seq<Lit>) -> Seq<char> {
    literals_text(lits).push('0')
}

/// The lines of the clauses, each closed by a line break.
pub open spec fn clauses_text(clauses: Seq<Seq<Lit>>) -> Seq<char>
    decreases clauses.len(),
{
    if clauses.len() == 0 {
        Seq::empty()
    } else {
        clauses_text(clauses.drop_last()) + clause_text(clauses.last()) + seq!['\n']
    }
}

/// The text of a constraint set: the line `p cnf V C` with `V = top - 1`
/// variables and `C` clauses, then the lines of the clauses.
pub open spec fn cnf_text(top: int, clauses: Seq<Seq<Lit>>) -> Seq<char> {
    seq!['p', ' ', 'c', 'n', 'f', ' '] + decimal(top - 1) + seq![' '] + decimal(
        clauses.len() as int,
    ) + seq!['\n'] + clauses_text(clauses)
}

/// The numeral of a digit.
fn digit_str(d: usize) -> (s: &'static str)
    requires
        d < 10,
    ensures
        s@ == seq![digit(d as nat)],
{
    proof {
        reveal_strlit("0");
        reveal_strlit("1");
        reveal_strlit("2");
        reveal_strlit("3");
        reveal_strlit("4");
        reveal_strlit("5");
        reveal_strlit("6");
        reveal_strlit("7");
        reveal_strlit("8");
        reveal_strlit("9");
    }
    let s = if d == 0 {
        "0"
    } else if d == 1 {
        "1"
    } else if d == 2 {
        "2"
    } else if d == 3 {
        "3"
    } else if d == 4 {
        "4"
    } else if d == 5 {
        "5"
    } else if d == 6 {
        "6"
    } else if d == 7 {
        "7"
    } else if d == 8 {
        "8"
    } else {
        "9"
    };
    assert(s@ =~= seq![digit(d as nat)]);
    s
}

/// Appends the decimal digits of `n`.
fn push_digits(out: &mut String, n: usize)
    ensures
        final(out)@ == old(out)@ + digits(n as nat),
    decreases n,
{
    if n >= 10 {
        push_digits(out, n / 10);
    }
    out.append(digit_str(n % 10));
    assert(out@ =~= old(out)@ + digits(n as nat));
}

/// Appends the decimal numeral of `n`.
fn push_decimal(out: &mut String, n: isize)
    ensures
        final(out)@ == old(out)@ + decimal(n as int),
{
    if n < 0 {
        proof {
            reveal_strlit("-");
        }
        out.append("-");
        let magnitude: usize = (-(n + 1)) as usize + 1;
        push_digits(out, magnitude);
        assert(out@ =~= old(out)@ + decimal(n as int));
    } else {
        push_digits(out, n as usize);
    }
}

impl Clause {
    /// The line of the clause, without its line break.
    pub fn to_string(&self) -> (text: String)
        ensures
            text@ == clause_text(self@),
    {
        proof {
            reveal_strlit(" ");
            reveal_strlit("0");
        }
        let mut text = String::new();
        let mut i: usize = 0;
        while i < self.lits.len()
            invariant
                i <= self.lits.len(),
                " "@ == seq![' '],
                text@ == literals_text(self@.take(i as int)),
            decreases self.lits.len() - i,
        {
            let ghost before = text@;
            push_decimal(&mut text, self.lits[i]);
            text.append(" ");
            proof {
                let upto = self@.take(i + 1);
                assert(upto.drop_last() =~= self@.take(i as int));
                assert(upto.last() == self@[i as int]);
                assert(text@ =~= before + decimal(self@[i as int] as int) + seq![' ']);
            }
            i += 1;
        }
        assert(self@.take(i as int) =~= self@);
        text.append("0");
        assert(text@ =~= clause_text(self@));
        text
    }
}

impl Cnf {
    /// The text of the constraint set, as a solver reads it.
    pub fn to_string(&self) -> (text: String)
        requires
            self.top > isize::MIN,
        ensures
            text@ == cnf_text(self.top as int, self.clauses.deep_view()),
    {
        proof {
            reveal_strlit("p cnf ");
            reveal_strlit(" ");
            reveal_strlit("\n");
        }
        let ghost clauses = self.clauses.deep_view();
        let mut text = String::new();
        text.append("p cnf ");
        push_decimal(&mut text, self.top - 1);
        text.append(" ");
        push_digits(&mut text, self.clauses.len());
        text.append("\n");
        let ghost header = text@;
        assert(header =~= seq!['p', ' ', 'c', 'n', 'f', ' '] + decimal(self.top - 1) + seq![' ']
            + decimal(clauses.len() as int) + seq!['\n']);
        let mut i: usize = 0;
        while i < self.clauses.len()
            invariant
                i <= self.clauses.len(),
                "\n"@ == seq!['\n'],
                clauses == self.clauses.deep_view(),
                text@ == header + clauses_text(clauses.take(i as int)),
            decreases self.clauses.len() - i,
        {
            let ghost before = text@;
            let line = self.clauses[i].to_string();
            text.append(line.as_str());
            text.append("\n");
            proof {
                let upto = clauses.take(i + 1);
                assert(upto.drop_last() =~= clauses.take(i as int));
                assert(upto.last() == clauses[i as int]);
                assert(text@ =~= header + (clauses_text(clauses.take(i as int)) + clause_text(
                    clauses[i as int],
                ) + seq!['\n']));
            }
            i += 1;
        }
        assert(clauses.take(i as int) =~= clauses);
        text
    }
}

} // verus!
