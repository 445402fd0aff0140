//! Reading what a solver writes: a status line `s ...` that says whether
//! the constraint set is satisfiable, then, where it is, value lines
//! `v ...` that list the literals of a model up to a closing `0`.

use vstd::prelude::*;
use crate::cnf::{Lit, Sat, variable};

verus! {

/// Why the text of a solution could not be read.
#[derive(Clone, Copy, Debug, PartialEq, Eq)]
pub enum SolutionError {
    /// No line starts with `s `.
    NoStatus,
    /// The status line says neither satisfiable nor unsatisfiable.
    UnknownStatus,
    /// A word of a value line before the closing `0` is not a literal.
    BadLiteral,
}

/// Whether `c` is white space: a character that Unicode classes as
/// `White_Space`.
pub open spec fn is_space(c: char) -> bool {
    let code = c as u32;
    ||| 0x09 <= code <= 0x0d
    ||| code == 0x20
    ||| code == 0x85
    ||| code == 0xa0
    ||| code == 0x1680
    ||| 0x2000 <= code <= 0x200a
    ||| code == 0x2028
    ||| code == 0x2029
    ||| code == 0x202f
    ||| code == 0x205f
    ||| code == 0x3000
}

/// The number of characters before the first line break of `s`.
pub open spec fn line_len(s: Seq<char>) -> nat
    decreases s.len(),
{
    if s.len() == 0 || s[0] == '\n' {
        0
    } else {
        1 + line_len(s.drop_first())
    }
}

/// The lines of `s`, without their line breaks. A text that ends in a line
/// break has no empty line after it.
pub open spec fn lines(s: Seq<char>) -> Seq<Seq<char>>
    decreases s.len(),
{
    if s.len() == 0 {
        Seq::empty()
    } else {
        let n = line_len(s) as int;
        if n >= s.len() {
            seq![s]
        } else {
            seq![s.take(n)] + lines(s.skip(n + 1))
        }
    }
}

/// The number of characters before the first white space of `s`.
pub open spec fn word_len(s: Seq<char>) -> nat
    decreases s.len(),
{
    if s.len() == 0 || is_space(s[0]) {
        0
    } else {
        1 + word_len(s.drop_first())
    }
}

/// The words of `s`: its longest runs of characters that are not white
/// space.
pub open spec fn words(s: Seq<char>) -> Seq<Seq<char>>
    decreases s.len(),
{
    if s.len() == 0 {
        Seq::empty()
    } else if is_space(s[0]) {
        words(s.drop_first())
    } else {
        let n = word_len(s) as int;
        if n >= s.len() {
            seq![s]
        } else {
            seq![s.take(n)] + words(s.skip(n))
        }
    }
}

/// The value of a decimal digit, `None` for any other character.
pub open spec fn digit_value(c: char) -> Option<nat> {
    if '0' <= c <= '9' {
        Some((c as u32 - '0' as u32) as nat)
    } else {
        None
    }
}

/// The number that the decimal digits `s` spell, `None` where `s` is
/// empty or holds another character.
pub open spec fn natural(s: Seq<char>) -> Option<nat>
    decreases s.len(),
{
    if s.len() == 0 {
        None
    } else if s.len() == 1 {
        digit_value(s[0])
    } else {
        match (natural(s.drop_last()), digit_value(s.last())) {
            (Some(n), Some(d)) => Some(10 * n + d),
            _ => None,
        }
    }
}

/// The integer that `s` spells: digits, after `-` or `+` or no sign.
pub open spec fn numeral(s: Seq<char>) -> Option<int> {
    if s.len() > 0 && s[0] == '-' {
        match natural(s.skip(1)) {
            Some(n) => Some(-(n as int)),
            None => None,
        }
    } else if s.len() > 0 && s[0] == '+' {
        match natural(s.skip(1)) {
            Some(n) => Some(n as int),
            None => None,
        }
    } else {
        match natural(s) {
            Some(n) => Some(n as int),
            None => None,
        }
    }
}

/// The literal, or the closing `0`, that `word` spells: `None` where it
/// spells no integer or one whose magnitude is not representable.
pub open spec fn literal_of(word: Seq<char>) -> Option<Lit> {
    match numeral(word) {
        Some(n) => if -isize::MAX <= n <= isize::MAX {
            Some(n as Lit)
        } else {
            None
        },
        None => None,
    }
}

/// Whether `line` is a status line.
pub open spec fn is_status(line: Seq<char>) -> bool {
    seq!['s', ' '].is_prefix_of(line)
}

/// Whether the status line says that nothing satisfies the constraints.
pub open spec fn says_unsat(line: Seq<char>) -> bool {
    seq!['s', ' ', 'U', 'N', 'S', 'A', 'T'].is_prefix_of(line)
}

/// Whether the status line says that a model follows.
pub open spec fn says_sat(line: Seq<char>) -> bool {
    seq!['s', ' ', 'S', 'A', 'T'].is_prefix_of(line)
}

/// Whether `line` is a value line.
pub open spec fn is_values(line: Seq<char>) -> bool {
    seq!['v', ' '].is_prefix_of(line)
}

/// The index of the first status line at or after `from`, and the number
/// of lines where there is none.
pub open spec fn first_status(lines: Seq<Seq<char>>, from: int) -> int
    decreases lines.len() - from,
{
    if from >= lines.len() {
        lines.len() as int
    } else if is_status(lines[from]) {
        from
    } else {
        first_status(lines, from + 1)
    }
}

/// The words of the value lines among the lines from `from` up to `to`,
/// `to` left out, each line's after its first two characters.
pub open spec fn value_words(lines: Seq<Seq<char>>, from: int, to: int) -> Seq<Seq<char>>
    decreases to - from,
{
    if to <= from {
        Seq::empty()
    } else {
        value_words(lines, from, to - 1) + (if is_values(lines[to - 1]) {
            words(lines[to - 1].skip(2))
        } else {
            Seq::empty()
        })
    }
}

/// `rest` after `first`, where there is a `rest`.
pub open spec fn prepend(first: Seq<Lit>, rest: Option<Seq<Lit>>) -> Option<Seq<Lit>> {
    match rest {
        Some(rest) => Some(first + rest),
        None => None,
    }
}

/// The literals that `words` spell up to the first `0`, or up to the end
/// where no `0` closes them; `None` where a word before that is no
/// literal.
pub open spec fn model_literals(words: Seq<Seq<char>>) -> Option<Seq<Lit>>
    decreases words.len(),
{
    if words.len() == 0 {
        Some(Seq::empty())
    } else {
        match literal_of(words[0]) {
            None => None,
            Some(l) => if l == 0 {
                Some(Seq::empty())
            } else {
                prepend(seq![l], model_literals(words.drop_first()))
            },
        }
    }
}

/// The assignment with the entry of the variable of `l` set to `l`, made
/// longer with entries `0` where it was too short.
pub open spec fn record(assignment: Seq<Lit>, l: Lit) -> Seq<Lit> {
    let v = variable(l);
    let grown = if v < assignment.len() {
        assignment
    } else {
        assignment + Seq::new((v + 1 - assignment.len()) as nat, |i: int| 0isize)
    };
    grown.update(v, l)
}

/// The assignment that lists each literal of `lits` at the index of its
/// variable, and `0` at each index below the largest variable that no
/// literal is on.
pub open spec fn assignment_of(lits: Seq<Lit>) -> Seq<Lit>
    decreases lits.len(),
{
    if lits.len() == 0 {
        Seq::empty()
    } else {
        record(assignment_of(lits.drop_last()), lits.last())
    }
}

/// What `text` says: the outcome of the first status line, with the model
/// that the value lines after it list.
pub open spec fn solution(text: Seq<char>) -> Result<Option<Seq<Lit>>, SolutionError> {
    let lines = lines(text);
    let status = first_status(lines, 0);
    if status >= lines.len() {
        Err(SolutionError::NoStatus)
    } else if says_unsat(lines[status]) {
        Ok(None)
    } else if says_sat(lines[status]) {
        match model_literals(value_words(lines, status + 1, lines.len() as int)) {
            Some(lits) => Ok(Some(assignment_of(lits))),
            None => Err(SolutionError::BadLiteral),
        }
    } else {
        Err(SolutionError::UnknownStatus)
    }
}

/// Digits that spell a number are digits throughout, and each of their
/// prefixes spells a number that is no larger.
proof fn lemma_natural_prefix(s: Seq<char>, k: int)
    requires
        0 < k <= s.len(),
        natural(s) is Some,
    ensures
        natural(s.take(k)) is Some,
        natural(s.take(k))->0 <= natural(s)->0,
    decreases s.len(),
{
    if k == s.len() {
        assert(s.take(k) =~= s);
    } else {
        assert(s.drop_last().take(k) =~= s.take(k));
        lemma_natural_prefix(s.drop_last(), k);
    }
}

/// Characters are their own view.
proof fn lemma_chars_view(chars: Vec<char>)
    ensures
        chars.deep_view() == chars@,
{
    assert(chars.deep_view() =~= chars@);
}

fn is_white(c: char) -> (white: bool)
    ensures
        white == is_space(c),
{
    let code: u32 = c as u32;
    (0x09 <= code && code <= 0x0d) || code == 0x20 || code == 0x85 || code == 0xa0 || code
        == 0x1680 || (0x2000 <= code && code <= 0x200a) || code == 0x2028 || code == 0x2029
        || code == 0x202f || code == 0x205f || code == 0x3000
}

fn chars_of(text: &str) -> (chars: Vec<char>)
    ensures
        chars@ == text@,
{
    broadcast use vstd::string::axiom_spec_iter;

    let mut chars: Vec<char> = Vec::new();
    for c in it: text.chars()
        invariant
            chars@ == it.seq().take(it.index() as int),
            it.seq() == text@,
    {
        chars.push(c);
        assert(chars@ =~= it.seq().take(it.index() + 1));
    }
    assert(chars@ =~= text@);
    chars
}

fn copy_range(text: &Vec<char>, start: usize, end: usize) -> (part: Vec<char>)
    requires
        start <= end <= text.len(),
    ensures
        part@ == text@.subrange(start as int, end as int),
{
    let mut part: Vec<char> = Vec::new();
    let mut i: usize = start;
    while i < end
        invariant
            start <= i <= end <= text.len(),
            part@ =~= text@.subrange(start as int, i as int),
        decreases end - i,
    {
        part.push(text[i]);
        i += 1;
    }
    part
}

fn push_word(words: &mut Vec<Vec<char>>, word: Vec<char>)
    ensures
        final(words).deep_view() == old(words).deep_view().push(word@),
{
    let ghost before = words.deep_view();
    let ghost added = word@;
    proof {
        lemma_chars_view(word);
    }
    words.push(word);
    assert(words.deep_view() =~= before.push(added));
}

fn append_words(words: &mut Vec<Vec<char>>, more: Vec<Vec<char>>)
    ensures
        final(words).deep_view() == old(words).deep_view() + more.deep_view(),
{
    let ghost before = words.deep_view();
    let ghost added = more.deep_view();
    let mut more = more;
    words.append(&mut more);
    assert(words.deep_view() =~= before + added);
}

fn starts_with(line: &Vec<char>, prefix: &Vec<char>) -> (starts: bool)
    ensures
        starts == prefix@.is_prefix_of(line@),
{
    if prefix.len() > line.len() {
        return false;
    }
    let mut i: usize = 0;
    while i < prefix.len()
        invariant
            i <= prefix.len() <= line.len(),
            prefix@.take(i as int) =~= line@.take(i as int),
        decreases prefix.len() - i,
    {
        if prefix[i] != line[i] {
            assert(prefix@[i as int] != line@.subrange(0, prefix@.len() as int)[i as int]);
            return false;
        }
        i += 1;
        assert(prefix@.take(i as int) =~= prefix@.take(i - 1).push(prefix@[i - 1]));
        assert(line@.take(i as int) =~= line@.take(i - 1).push(line@[i - 1]));
    }
    assert(prefix@.take(i as int) =~= prefix@);
    true
}

fn split_lines(text: &Vec<char>) -> (result: Vec<Vec<char>>)
    ensures
        result.deep_view() == lines(text@),
{
    let mut result: Vec<Vec<char>> = Vec::new();
    let mut start: usize = 0;
    assert(text@.skip(0) =~= text@);
    while start < text.len()
        invariant
            start <= text.len(),
            result.deep_view() + lines(text@.skip(start as int)) == lines(text@),
        decreases text.len() - start,
    {
        let ghost rest = text@.skip(start as int);
        let mut end: usize = start;
        assert(text@.skip(end as int) =~= rest);
        while end < text.len() && text[end] != '\n'
            invariant
                start <= end <= text.len(),
                rest == text@.skip(start as int),
                line_len(rest) == (end - start) + line_len(text@.skip(end as int)),
            decreases text.len() - end,
        {
            assert(text@.skip(end as int).drop_first() =~= text@.skip(end + 1));
            end += 1;
        }
        assert(line_len(rest) == end - start);
        let line = copy_range(text, start, end);
        assert(line@ =~= rest.take(end - start));
        let ghost before = result.deep_view();
        push_word(&mut result, line);
        if end == text.len() {
            assert(rest.take(end - start) =~= rest);
            assert(lines(rest) =~= seq![rest]);
            start = end;
            assert(lines(text@.skip(start as int)) =~= Seq::<Seq<char>>::empty());
            assert(before.push(rest) + Seq::<Seq<char>>::empty() =~= before + seq![rest]);
        } else {
            assert(rest.skip(end - start + 1) =~= text@.skip(end + 1));
            start = end + 1;
            assert(before.push(line@) + lines(text@.skip(start as int)) =~= before + (seq![line@]
                + lines(text@.skip(start as int))));
        }
    }
    assert(lines(text@.skip(start as int)) =~= Seq::<Seq<char>>::empty());
    assert(result.deep_view() + Seq::<Seq<char>>::empty() =~= result.deep_view());
    result
}

fn split_words(line: &Vec<char>, from: usize) -> (result: Vec<Vec<char>>)
    requires
        from <= line.len(),
    ensures
        result.deep_view() == words(line@.skip(from as int)),
{
    let mut result: Vec<Vec<char>> = Vec::new();
    let mut start: usize = from;
    let ghost all = words(line@.skip(from as int));
    while start < line.len()
        invariant
            from <= start <= line.len(),
            result.deep_view() + words(line@.skip(start as int)) == all,
        decreases line.len() - start,
    {
        let ghost rest = line@.skip(start as int);
        if is_white(line[start]) {
            assert(rest.drop_first() =~= line@.skip(start + 1));
            start += 1;
        } else {
            let mut end: usize = start;
            assert(line@.skip(end as int) =~= rest);
            while end < line.len() && !is_white(line[end])
                invariant
                    start <= end <= line.len(),
                    rest == line@.skip(start as int),
                    word_len(rest) == (end - start) + word_len(line@.skip(end as int)),
                decreases line.len() - end,
            {
                assert(line@.skip(end as int).drop_first() =~= line@.skip(end + 1));
                end += 1;
            }
            assert(word_len(rest) == end - start);
            let word = copy_range(line, start, end);
            assert(word@ =~= rest.take(end - start));
            let ghost before = result.deep_view();
            push_word(&mut result, word);
            if end == line.len() {
                assert(rest.take(end - start) =~= rest);
                assert(words(rest) =~= seq![rest]);
                assert(words(line@.skip(end as int)) =~= Seq::<Seq<char>>::empty());
                assert(before.push(rest) + Seq::<Seq<char>>::empty() =~= before + seq![rest]);
            } else {
                assert(rest.skip(end - start) =~= line@.skip(end as int));
                assert(before.push(word@) + words(line@.skip(end as int)) =~= before + (seq![word@]
                    + words(line@.skip(end as int))));
            }
            start = end;
        }
    }
    assert(words(line@.skip(start as int)) =~= Seq::<Seq<char>>::empty());
    assert(result.deep_view() + Seq::<Seq<char>>::empty() =~= result.deep_view());
    result
}

fn digit_of(c: char) -> (digit: Option<usize>)
    ensures
        match digit {
            Some(d) => digit_value(c) == Some(d as nat) && d < 10,
            None => digit_value(c) is None,
        },
{
    if '0' <= c && c <= '9' {
        Some((c as u32 - '0' as u32) as usize)
    } else {
        None
    }
}

fn parse_literal(word: &Vec<char>) -> (lit: Option<Lit>)
    ensures
        lit == literal_of(word@),
{
    let n = word.len();
    if n == 0 {
        return None;
    }
    let negative = word[0] == '-';
    let start: usize = if word[0] == '-' || word[0] == '+' {
        1
    } else {
        0
    };
    let ghost body = word@.skip(start as int);
    assert(word@.skip(0) =~= word@);
    if start == n {
        return None;
    }
    let limit: usize = isize::MAX as usize;
    let mut value: usize = 0;
    let mut i: usize = start;
    while i < n
        invariant
            start <= i <= n == word.len(),
            start < n,
            body == word@.skip(start as int),
            negative == (word@[0] == '-'),
            start == (if word@[0] == '-' || word@[0] == '+' {
                1int
            } else {
                0int
            }),
            limit == isize::MAX,
            value <= limit,
            i == start ==> value == 0,
            i > start ==> natural(body.take(i - start)) == Some(value as nat),
        decreases n - i,
    {
        let ghost grown = body.take(i + 1 - start);
        proof {
            assert(word@.skip(0) =~= word@);
            assert(grown.last() == word@[i as int]);
            if i > start {
                assert(grown.drop_last() =~= body.take(i - start));
            }
        }
        match digit_of(word[i]) {
            None => {
                proof {
                    assert(natural(grown) is None);
                    if natural(body) is Some {
                        lemma_natural_prefix(body, i + 1 - start);
                    }
                }
                return None;
            },
            Some(d) => {
                if value > (limit - d) / 10 {
                    proof {
                        assert(natural(grown) == Some((10 * value + d) as nat));
                        if natural(body) is Some {
                            lemma_natural_prefix(body, i + 1 - start);
                        }
                    }
                    return None;
                }
                value = value * 10 + d;
                assert(natural(grown) == Some(value as nat));
            },
        }
        i += 1;
    }
    assert(body.take(n - start) =~= body);
    if negative {
        Some(-(value as isize))
    } else {
        Some(value as isize)
    }
}

fn record_literal(assignment: &mut Vec<Lit>, l: Lit)
    requires
        l > isize::MIN,
    ensures
        final(assignment)@ == record(old(assignment)@, l),
{
    let var: usize = if l < 0 {
        (-l) as usize
    } else {
        l as usize
    };
    let ghost before = assignment@;
    while assignment.len() <= var
        invariant
            before.len() <= assignment.len(),
            assignment.len() <= var + 1 || assignment.len() == before.len(),
            var <= isize::MAX,
            assignment@ =~= before + Seq::new(
                (assignment.len() - before.len()) as nat,
                |i: int| 0isize,
            ),
        decreases var + 1 - assignment.len(),
    {
        assignment.push(0);
    }
    assert(before.len() <= var ==> assignment@ =~= before + Seq::new(
        (var + 1 - before.len()) as nat,
        |i: int| 0isize,
    ));
    assert(before.len() > var ==> assignment@ =~= before);
    assignment.set(var, l);
}

impl Sat {
    /// The assignment as a mathematical value: `None` for the
    /// unsatisfiable outcome.
    pub open spec fn assignment(&self) -> Option<Seq<Lit>> {
        match self.0 {
            Some(assignment) => Some(assignment@),
            None => None,
        }
    }

    /// Reads the text that a solver wrote. The first line that starts
    /// with `s ` decides: `s UNSAT...` gives the unsatisfiable outcome,
    /// `s SAT...` the model that the later lines starting with `v ` list,
    /// word by word, up to the first `0`.
    pub fn from_str(text: &str) -> (result: Result<Sat, SolutionError>)
        ensures
            solution(text@) == match result {
                Ok(sat) => Ok::<Option<Seq<Lit>>, SolutionError>(sat.assignment()),
                Err(error) => Err(error),
            },
    {
        let chars = chars_of(text);
        let lines = split_lines(&chars);
        let ghost all = lines.deep_view();
        let status_prefix = vec!['s', ' '];
        let unsat_prefix = vec!['s', ' ', 'U', 'N', 'S', 'A', 'T'];
        let sat_prefix = vec!['s', ' ', 'S', 'A', 'T'];
        let values_prefix = vec!['v', ' '];
        assert(status_prefix@ =~= seq!['s', ' ']);
        assert(unsat_prefix@ =~= seq!['s', ' ', 'U', 'N', 'S', 'A', 'T']);
        assert(sat_prefix@ =~= seq!['s', ' ', 'S', 'A', 'T']);
        assert(values_prefix@ =~= seq!['v', ' ']);
        let mut status: usize = 0;
        proof {
            if 0 < lines.len() {
                lemma_chars_view(lines[0]);
            }
        }
        while status < lines.len() && !starts_with(&lines[status], &status_prefix)
            invariant
                status <= lines.len(),
                all == lines.deep_view(),
                status_prefix@ == seq!['s', ' '],
                first_status(all, 0) == first_status(all, status as int),
                status < lines.len() ==> all[status as int] == lines[status as int]@,
            decreases lines.len() - status,
        {
            status += 1;
            proof {
                if status < lines.len() {
                    lemma_chars_view(lines[status as int]);
                }
            }
        }
        if status == lines.len() {
            return Err(SolutionError::NoStatus);
        }
        assert(first_status(all, 0) == status);
        proof {
            lemma_chars_view(lines[status as int]);
        }
        if starts_with(&lines[status], &unsat_prefix) {
            return Ok(Sat(None));
        }
        if !starts_with(&lines[status], &sat_prefix) {
            return Err(SolutionError::UnknownStatus);
        }
        let mut words: Vec<Vec<char>> = Vec::new();
        let mut k: usize = status + 1;
        assert(words.deep_view() =~= value_words(all, status + 1, k as int));
        while k < lines.len()
            invariant
                status < k <= lines.len(),
                all == lines.deep_view(),
                values_prefix@ == seq!['v', ' '],
                words.deep_view() == value_words(all, status + 1, k as int),
            decreases lines.len() - k,
        {
            let ghost before = words.deep_view();
            proof {
                lemma_chars_view(lines[k as int]);
            }
            if starts_with(&lines[k], &values_prefix) {
                append_words(&mut words, split_words(&lines[k], 2));
            } else {
                assert(before + Seq::<Seq<char>>::empty() =~= before);
            }
            k += 1;
        }
        let ghost spelled = words.deep_view();
        let ghost mut read: Seq<Lit> = Seq::empty();
        let mut assignment: Vec<Lit> = Vec::new();
        let mut t: usize = 0;
        assert(spelled.skip(0) =~= spelled);
        assert(prepend(read, model_literals(spelled)) == model_literals(spelled)) by {
            if model_literals(spelled) is Some {
                assert(read + model_literals(spelled)->0 =~= model_literals(spelled)->0);
            }
        }
        assert(solution(text@) == match model_literals(spelled) {
            Some(lits) => Ok::<Option<Seq<Lit>>, SolutionError>(Some(assignment_of(lits))),
            None => Err(SolutionError::BadLiteral),
        });
        while t < words.len()
            invariant
                t <= words.len(),
                spelled == words.deep_view(),
                solution(text@) == match model_literals(spelled) {
                    Some(lits) => Ok::<Option<Seq<Lit>>, SolutionError>(Some(assignment_of(lits))),
                    None => Err(SolutionError::BadLiteral),
                },
                model_literals(spelled) == prepend(read, model_literals(spelled.skip(t as int))),
                assignment@ == assignment_of(read),
            decreases words.len() - t,
        {
            let ghost rest = spelled.skip(t as int);
            proof {
                lemma_chars_view(words[t as int]);
            }
            assert(rest[0] == words[t as int]@);
            assert(rest.drop_first() =~= spelled.skip(t + 1));
            match parse_literal(&words[t]) {
                None => {
                    return Err(SolutionError::BadLiteral);
                },
                Some(l) => {
                    if l == 0 {
                        assert(read + Seq::<Lit>::empty() =~= read);
                        return Ok(Sat(Some(assignment)));
                    }
                    record_literal(&mut assignment, l);
                    proof {
                        let grown = read.push(l);
                        assert(grown.drop_last() =~= read);
                        let tail = model_literals(spelled.skip(t + 1));
                        if tail is Some {
                            assert(read + (seq![l] + tail->0) =~= grown + tail->0);
                        }
                        read = grown;
                    }
                },
            }
            t += 1;
        }
        assert(read + Seq::<Lit>::empty() =~= read);
        Ok(Sat(Some(assignment)))
    }
}

} // verus!
