//! Boolean expressions: `||` over `&&` over an optional `!` over an atom.

use vstd::prelude::*;
use crate::function::{call_view, parse_function_call, spec_call, CallV, FunctionCall};
use crate::number::{number_at, number_end, number_value, parse_number, string_to_number};
use crate::symbol::{parse_symbol, spec_symbol, symbol_view, Symbol, SymbolV};
use crate::text::{chars_of, find_line_end, line_end, wsi, wsi_end};
use crate::{mismatch, PResult};

verus! {

#[derive(Debug, Clone, Copy, PartialEq, Eq, Structural)]
pub enum Operator {
    And,
    Or,
}

#[derive(Debug, Clone, Copy, PartialEq, Eq, Structural)]
pub enum CompareOperator {
    GreaterThan,
    GreaterOrEqual,
    LowerThan,
    LowerOrEqual,
    Equal,
    NotEqual,
}

/// `left operator right`, such as `NR_CPUS >= 4`.
#[derive(Debug, PartialEq, Eq)]
pub struct CompareExpression {
    pub left: Symbol,
    pub operator: CompareOperator,
    pub right: Symbol,
}

/// The leaves of an expression.
#[derive(Debug, PartialEq, Eq)]
pub enum Atom {
    Symbol(Symbol),
    Number(i64),
    Compare(CompareExpression),
    Function(FunctionCall),
    Parenthesis(Box<Expression>),
    String(String),
}

/// An atom, negated or not.
#[derive(Debug, PartialEq, Eq)]
pub enum Term {
    Not(Atom),
    Atom(Atom),
}

/// Terms joined by `&&`. A single term stands alone: a list always holds two or more.
#[derive(Debug, PartialEq, Eq)]
pub enum AndExpression {
    Term(Term),
    Expression(Vec<Term>),
}

/// `&&`-expressions joined by `||`. A single one stands alone: a list always holds two or more.
#[derive(Debug, PartialEq, Eq)]
pub enum OrExpression {
    Term(AndExpression),
    Expression(Vec<AndExpression>),
}

pub type Expression = OrExpression;

/// The mathematical value of an atom.
pub enum AtomV {
    Symbol(SymbolV),
    Number(int),
    Compare(SymbolV, CompareOperator, SymbolV),
    Function(CallV),
    Parenthesis(Box<OrV>),
    String(Seq<char>),
}

pub enum TermV {
    Not(AtomV),
    Atom(AtomV),
}

pub enum AndV {
    Term(TermV),
    Expression(Seq<TermV>),
}

pub enum OrV {
    Term(AndV),
    Expression(Seq<AndV>),
}

pub open spec fn atom_view(a: Atom) -> AtomV
    decreases a,
{
    match a {
        Atom::Symbol(s) => AtomV::Symbol(symbol_view(s)),
        Atom::Number(n) => AtomV::Number(n as int),
        Atom::Compare(c) => AtomV::Compare(symbol_view(c.left), c.operator, symbol_view(c.right)),
        Atom::Function(f) => AtomV::Function(call_view(f)),
        Atom::Parenthesis(e) => AtomV::Parenthesis(Box::new(or_view(*e))),
        Atom::String(t) => AtomV::String(t@),
    }
}

pub open spec fn term_view(t: Term) -> TermV
    decreases t,
{
    match t {
        Term::Not(a) => TermV::Not(atom_view(a)),
        Term::Atom(a) => TermV::Atom(atom_view(a)),
    }
}

pub open spec fn terms_view(ts: Seq<Term>) -> Seq<TermV>
    decreases ts,
{
    if ts.len() == 0 {
        Seq::empty()
    } else {
        terms_view(ts.subrange(0, ts.len() - 1)).push(term_view(ts[ts.len() - 1]))
    }
}

pub open spec fn and_view(e: AndExpression) -> AndV
    decreases e,
{
    match e {
        AndExpression::Term(t) => AndV::Term(term_view(t)),
        AndExpression::Expression(v) => AndV::Expression(terms_view(v@)),
    }
}

pub open spec fn ands_view(es: Seq<AndExpression>) -> Seq<AndV>
    decreases es,
{
    if es.len() == 0 {
        Seq::empty()
    } else {
        ands_view(es.subrange(0, es.len() - 1)).push(and_view(es[es.len() - 1]))
    }
}

pub open spec fn or_view(e: OrExpression) -> OrV
    decreases e,
{
    match e {
        OrExpression::Term(a) => OrV::Term(and_view(a)),
        OrExpression::Expression(v) => OrV::Expression(ands_view(v@)),
    }
}

proof fn lemma_terms_view_push(ts: Seq<Term>, t: Term)
    ensures
        terms_view(ts.push(t)) == terms_view(ts).push(term_view(t)),
        terms_view(ts).len() == ts.len(),
    decreases ts.len(),
{
    assert(ts.push(t).subrange(0, ts.len() as int) =~= ts);
    if ts.len() > 0 {
        lemma_terms_view_push(ts.subrange(0, ts.len() - 1), ts[ts.len() - 1]);
        assert(ts.subrange(0, ts.len() - 1).push(ts[ts.len() - 1]) =~= ts);
    }
}

proof fn lemma_ands_view_push(es: Seq<AndExpression>, e: AndExpression)
    ensures
        ands_view(es.push(e)) == ands_view(es).push(and_view(e)),
        ands_view(es).len() == es.len(),
    decreases es.len(),
{
    assert(es.push(e).subrange(0, es.len() as int) =~= es);
    if es.len() > 0 {
        lemma_ands_view_push(es.subrange(0, es.len() - 1), es[es.len() - 1]);
        assert(es.subrange(0, es.len() - 1).push(es[es.len() - 1]) =~= es);
    }
}

/// The comparison operator at `pos`; two-character operators are tried before their one-character prefixes.
pub open spec fn spec_compare_op(s: Seq<char>, pos: int) -> Option<(int, CompareOperator)> {
    let two = 0 <= pos && pos + 1 < s.len() && s[pos + 1] == '=';
    if !(0 <= pos < s.len()) {
        None
    } else if s[pos] == '>' {
        if two {
            Some((pos + 2, CompareOperator::GreaterOrEqual))
        } else {
            Some((pos + 1, CompareOperator::GreaterThan))
        }
    } else if s[pos] == '<' {
        if two {
            Some((pos + 2, CompareOperator::LowerOrEqual))
        } else {
            Some((pos + 1, CompareOperator::LowerThan))
        }
    } else if s[pos] == '=' {
        Some((pos + 1, CompareOperator::Equal))
    } else if s[pos] == '!' && two {
        Some((pos + 2, CompareOperator::NotEqual))
    } else {
        None
    }
}

/// `symbol operator symbol`, with blanks (and escaped line breaks) around the operator.
pub open spec fn spec_compare(s: Seq<char>, pos: int) -> Option<(int, AtomV)> {
    match spec_symbol(s, wsi_end(s, pos)) {
        Some((p1, l)) => match spec_compare_op(s, wsi_end(s, p1)) {
            Some((p3, o)) => match spec_symbol(s, wsi_end(s, p3)) {
                Some((p5, r)) => Some((p5, AtomV::Compare(l, o, r))),
                None => None,
            },
            None => None,
        },
        None => None,
    }
}

/// A symbol, where a bareword that is all a decimal integer is a number.
pub open spec fn spec_number_or_symbol(s: Seq<char>, pos: int) -> Option<(int, AtomV)> {
    match spec_symbol(s, pos) {
        Some((e, SymbolV::NonConstant(t))) => if number_at(t, 0) && number_end(t, 0) == t.len() {
            Some((e, AtomV::Number(number_value(t, 0))))
        } else {
            Some((e, AtomV::Symbol(SymbolV::NonConstant(t))))
        },
        Some((e, sv)) => Some((e, AtomV::Symbol(sv))),
        None => None,
    }
}

/// A double-quoted text; see [`parse_string`].
pub open spec fn spec_string(s: Seq<char>, pos: int) -> Option<(int, Seq<char>)> {
    if string_at(s, pos) {
        let close = last_quote(s, pos + 1, line_end(s, pos + 1));
        Some((close + 1, s.subrange(pos + 1, close)))
    } else {
        None
    }
}

/// A parenthesised expression.
pub open spec fn spec_parenthesis(s: Seq<char>, pos: int) -> Option<(int, AtomV)>
    decreases s.len() - pos, 0int,
{
    let open = wsi_end(s, pos);
    if !(0 <= pos <= open < s.len() && s[open] == '(') {
        None
    } else {
        match spec_or(s, open + 1) {
            Some((e, x)) => {
                let close = wsi_end(s, e);
                if 0 <= close < s.len() && s[close] == ')' {
                    Some((close + 1, AtomV::Parenthesis(Box::new(x))))
                } else {
                    None
                }
            },
            None => None,
        }
    }
}

/// An atom; see [`parse_atom`].
pub open spec fn spec_atom(s: Seq<char>, pos: int) -> Option<(int, AtomV)>
    decreases s.len() - pos, 1int,
{
    if pos < 0 || pos > s.len() {
        None
    } else if spec_compare(s, pos) is Some {
        spec_compare(s, pos)
    } else if spec_call(s, pos) is Some {
        let (e, f) = spec_call(s, pos)->0;
        Some((e, AtomV::Function(f)))
    } else if spec_parenthesis(s, pos) is Some {
        spec_parenthesis(s, pos)
    } else if spec_string(s, pos) is Some {
        let (e, t) = spec_string(s, pos)->0;
        Some((e, AtomV::String(t)))
    } else if spec_number_or_symbol(s, pos) is Some {
        spec_number_or_symbol(s, pos)
    } else if number_at(s, pos) && number_end(s, pos) > pos {
        Some((number_end(s, pos), AtomV::Number(number_value(s, pos))))
    } else {
        None
    }
}

/// An atom, negated where `!` comes first.
pub open spec fn spec_term(s: Seq<char>, pos: int) -> Option<(int, TermV)>
    decreases s.len() - pos, 2int,
{
    let bang = wsi_end(s, pos);
    if pos < 0 || pos > s.len() {
        None
    } else if pos <= bang < s.len() && s[bang] == '!' && spec_atom(s, bang + 1) is Some {
        let (e, a) = spec_atom(s, bang + 1)->0;
        Some((e, TermV::Not(a)))
    } else {
        match spec_atom(s, pos) {
            Some((e, a)) => Some((e, TermV::Atom(a))),
            None => None,
        }
    }
}

/// Whether the two-character operator `c c` follows the blanks at `pos`.
pub open spec fn doubled_at(s: Seq<char>, pos: int, c: char) -> bool {
    let op = wsi_end(s, pos);
    0 <= pos <= op && op + 1 < s.len() && s[op] == c && s[op + 1] == c
}

/// The terms after a first one: `&&` then a term, for as long as there are some.
pub open spec fn and_rest(s: Seq<char>, pos: int) -> (int, Seq<TermV>)
    decreases s.len() - pos, 3int,
{
    let at = wsi_end(s, wsi_end(s, pos) + 2);
    if !(doubled_at(s, pos, '&') && pos < at <= s.len()) {
        (pos, Seq::empty())
    } else {
        match spec_term(s, at) {
            Some((e, t)) => if at < e <= s.len() {
                let (e2, rest) = and_rest(s, e);
                (e2, seq![t] + rest)
            } else {
                (pos, Seq::empty())
            },
            None => (pos, Seq::empty()),
        }
    }
}

/// Terms joined by `&&`; one term alone stands as it is.
pub open spec fn spec_and(s: Seq<char>, pos: int) -> Option<(int, AndV)>
    decreases s.len() - pos, 4int,
{
    let start = wsi_end(s, pos);
    if !(0 <= pos <= start <= s.len()) {
        None
    } else {
        match spec_term(s, start) {
            Some((p, first)) => if start < p <= s.len() {
                let (e, rest) = and_rest(s, p);
                if rest.len() == 0 {
                    Some((e, AndV::Term(first)))
                } else {
                    Some((e, AndV::Expression(seq![first] + rest)))
                }
            } else {
                None
            },
            None => None,
        }
    }
}

/// The `&&`-expressions after a first one: `||` then one more, for as long as there are some.
pub open spec fn or_rest(s: Seq<char>, pos: int) -> (int, Seq<AndV>)
    decreases s.len() - pos, 5int,
{
    let at = wsi_end(s, wsi_end(s, pos) + 2);
    if !(doubled_at(s, pos, '|') && pos < at <= s.len()) {
        (pos, Seq::empty())
    } else {
        match spec_and(s, at) {
            Some((e, a)) => if at < e <= s.len() {
                let (e2, rest) = or_rest(s, e);
                (e2, seq![a] + rest)
            } else {
                (pos, Seq::empty())
            },
            None => (pos, Seq::empty()),
        }
    }
}

/// `&&`-expressions joined by `||`; one alone stands as it is.
pub open spec fn spec_or(s: Seq<char>, pos: int) -> Option<(int, OrV)>
    decreases s.len() - pos, 6int,
{
    let start = wsi_end(s, pos);
    if !(0 <= pos <= start <= s.len()) {
        None
    } else {
        match spec_and(s, start) {
            Some((p, first)) => if start < p <= s.len() {
                let (e, rest) = or_rest(s, p);
                if rest.len() == 0 {
                    Some((e, OrV::Term(first)))
                } else {
                    Some((e, OrV::Expression(seq![first] + rest)))
                }
            } else {
                None
            },
            None => None,
        }
    }
}

/// `if` and an expression.
pub open spec fn spec_if_expression(s: Seq<char>, pos: int) -> Option<(int, OrV)> {
    let k = wsi_end(s, pos);
    if 0 <= pos <= k && k + 1 < s.len() && s[k] == 'i' && s[k + 1] == 'f' {
        spec_or(s, wsi_end(s, k + 2))
    } else {
        None
    }
}

/// No `&&` list has fewer than two terms.
pub open spec fn and_wf(e: AndExpression) -> bool {
    e matches AndExpression::Expression(v) ==> v@.len() >= 2
}

/// No list of the expression's top two levels has fewer than two members.
pub open spec fn or_wf(e: OrExpression) -> bool {
    match e {
        OrExpression::Term(a) => and_wf(a),
        OrExpression::Expression(v) => v@.len() >= 2 && forall|i: int|
            0 <= i < v@.len() ==> and_wf(#[trigger] v@[i]),
    }
}

/// How many `"` stand in `s[from..to]`.
pub open spec fn count_quotes(s: Seq<char>, from: int, to: int) -> nat
    decreases to - from,
{
    if to <= from {
        0
    } else if s[to - 1] == '"' {
        count_quotes(s, from, to - 1) + 1
    } else {
        count_quotes(s, from, to - 1)
    }
}

/// The position of the last `"` in `s[from..to]`, or `from - 1` where there is none.
pub open spec fn last_quote(s: Seq<char>, from: int, to: int) -> int
    decreases to - from,
{
    if to <= from {
        from - 1
    } else if s[to - 1] == '"' {
        to - 1
    } else {
        last_quote(s, from, to - 1)
    }
}

/// Whether a double-quoted text stands at `pos`: the closing quote is the last
/// one on the line, and the quotes between them pair up.
pub open spec fn string_at(s: Seq<char>, pos: int) -> bool {
    let eol = line_end(s, pos + 1);
    0 <= pos < s.len() && s[pos] == '"' && count_quotes(s, pos + 1, eol) % 2 == 1
}

/// Reads a double-quoted text that may hold quotes of its own: it runs to the
/// last quote of the line, which must leave an even number of quotes inside.
pub fn parse_string(s: &[char], pos: usize) -> (r: PResult<String>)
    requires
        pos <= s@.len(),
    ensures
        r is Ok <==> string_at(s@, pos as int),
        r matches Ok((e, t)) ==> {
            let close = last_quote(s@, pos + 1, line_end(s@, pos + 1));
            &&& e == close + 1
            &&& t@ == s@.subrange(pos + 1, close)
        },
        r matches Err(err) ==> err.kind is Mismatch,
        crate::consumes(r, s@, pos as int),
        r matches Ok((e, t)) ==> spec_string(s@, pos as int) == Some((e as int, t@)),
        r is Err ==> spec_string(s@, pos as int) is None,
{
    if !(pos < s.len() && s[pos] == '"') {
        return mismatch(pos);
    }
    let a = pos + 1;
    let eol = find_line_end(s, a);
    let mut i = a;
    let mut count: usize = 0;
    let mut last: usize = pos;
    while i < eol
        invariant
            a <= i <= eol <= s@.len(),
            a == pos + 1,
            count == count_quotes(s@, a as int, i as int),
            count <= i - a,
            last == last_quote(s@, a as int, i as int),
            pos <= last < i,
            last >= a ==> s@[last as int] == '"',
        decreases eol - i,
    {
        if s[i] == '"' {
            count += 1;
            last = i;
        }
        i += 1;
    }
    if count % 2 == 0 {
        return mismatch(pos);
    }
    assert(last >= a) by {
        if last < a {
            lemma_no_quote(s@, a as int, i as int);
        }
    }
    let t = crate::text::string_of(s, a, last);
    Ok((last + 1, t))
}

proof fn lemma_no_quote(s: Seq<char>, from: int, to: int)
    requires
        from <= to,
        last_quote(s, from, to) < from,
    ensures
        count_quotes(s, from, to) == 0,
    decreases to - from,
{
    if to > from {
        lemma_no_quote(s, from, to - 1);
    }
}

/// The comparison operator at `pos`; two-character operators are tried before their one-character prefixes.
pub fn parse_compare_operator(s: &[char], pos: usize) -> (r: PResult<CompareOperator>)
    requires
        pos <= s@.len(),
    ensures
        r matches Ok((e, op)) ==> spec_compare_op(s@, pos as int) == Some((e as int, op)),
        r is Err ==> spec_compare_op(s@, pos as int) is None,
        r matches Ok((e, _)) ==> pos < e <= s@.len(),
        r matches Err(err) ==> err.kind is Mismatch,
{
    if pos >= s.len() {
        return mismatch(pos);
    }
    let c = s[pos];
    let two = s.len() - pos >= 2 && s[pos + 1] == '=';
    if c == '>' {
        if two {
            Ok((pos + 2, CompareOperator::GreaterOrEqual))
        } else {
            Ok((pos + 1, CompareOperator::GreaterThan))
        }
    } else if c == '<' {
        if two {
            Ok((pos + 2, CompareOperator::LowerOrEqual))
        } else {
            Ok((pos + 1, CompareOperator::LowerThan))
        }
    } else if c == '=' {
        Ok((pos + 1, CompareOperator::Equal))
    } else if c == '!' && two {
        Ok((pos + 2, CompareOperator::NotEqual))
    } else {
        mismatch(pos)
    }
}

/// Reads `symbol operator symbol`.
pub fn parse_compare(s: &[char], pos: usize) -> (r: PResult<Atom>)
    requires
        pos <= s@.len(),
    ensures
        r matches Ok((e, a)) ==> spec_compare(s@, pos as int) == Some((e as int, atom_view(a))),
        r is Err ==> spec_compare(s@, pos as int) is None,
        r matches Ok((e, a)) ==> pos < e <= s@.len() && a is Compare,
        r matches Err(err) ==> err.kind is Mismatch,
{
    let p = wsi(s, pos);
    let (p, left) = match parse_symbol(s, p) {
        Ok(x) => x,
        Err(e) => return Err(e),
    };
    let p = wsi(s, p);
    let (p, operator) = match parse_compare_operator(s, p) {
        Ok(x) => x,
        Err(e) => return Err(e),
    };
    let p = wsi(s, p);
    let (p, right) = match parse_symbol(s, p) {
        Ok(x) => x,
        Err(e) => return Err(e),
    };
    Ok((p, Atom::Compare(CompareExpression { left, operator, right })))
}

/// Reads a symbol; a bareword that is all a decimal integer is a number.
pub fn parse_number_or_symbol(s: &[char], pos: usize) -> (r: PResult<Atom>)
    requires
        pos <= s@.len(),
    ensures
        r matches Ok((e, a)) ==> spec_number_or_symbol(s@, pos as int) == Some((e as int, atom_view(a))),
        r is Err ==> spec_number_or_symbol(s@, pos as int) is None,
        r matches Ok((e, a)) ==> pos < e <= s@.len() && (a is Symbol || a is Number),
        r matches Err(err) ==> err.kind is Mismatch,
{
    match parse_symbol(s, pos) {
        Ok((e, Symbol::NonConstant(t))) => {
            let cs = chars_of(t.as_str());
            match string_to_number(cs.as_slice()) {
                Some(n) => Ok((e, Atom::Number(n))),
                None => Ok((e, Atom::Symbol(Symbol::NonConstant(t)))),
            }
        },
        Ok((e, sym)) => Ok((e, Atom::Symbol(sym))),
        Err(err) => Err(err),
    }
}

/// Reads an atom. The alternatives are tried in this order: a comparison, a
/// function call, a parenthesised expression, a double-quoted text, a symbol or
/// number, a negative number.
pub fn parse_atom(s: &[char], pos: usize) -> (r: PResult<Atom>)
    requires
        pos <= s@.len(),
    ensures
        r matches Ok((e, a)) ==> spec_atom(s@, pos as int) == Some((e as int, atom_view(a))),
        r is Err ==> spec_atom(s@, pos as int) is None,
        r matches Ok((e, _)) ==> pos < e <= s@.len(),
        r matches Err(err) ==> err.kind is Mismatch,
    decreases s@.len() - pos, 1int,
{
    if let Ok(r) = parse_compare(s, pos) {
        return Ok(r);
    }
    if let Ok((e, f)) = parse_function_call(s, pos) {
        return Ok((e, Atom::Function(f)));
    }
    let open = wsi(s, pos);
    if open < s.len() && s[open] == '(' {
        if let Ok((e, inner)) = parse_expression(s, open + 1) {
            let close = wsi(s, e);
            if close < s.len() && s[close] == ')' {
                return Ok((close + 1, Atom::Parenthesis(Box::new(inner))));
            }
        }
    }
    if let Ok((e, t)) = parse_string(s, pos) {
        return Ok((e, Atom::String(t)));
    }
    if let Ok(r) = parse_number_or_symbol(s, pos) {
        return Ok(r);
    }
    match parse_number(s, pos) {
        Ok((e, n)) => if e > pos {
            Ok((e, Atom::Number(n)))
        } else {
            mismatch(pos)
        },
        Err(err) => Err(err),
    }
}

/// Reads an atom, negated where `!` comes first.
pub fn parse_term(s: &[char], pos: usize) -> (r: PResult<Term>)
    requires
        pos <= s@.len(),
    ensures
        r matches Ok((e, t)) ==> spec_term(s@, pos as int) == Some((e as int, term_view(t))),
        r is Err ==> spec_term(s@, pos as int) is None,
        r matches Ok((e, _)) ==> pos < e <= s@.len(),
        r matches Err(err) ==> err.kind is Mismatch,
    decreases s@.len() - pos, 2int,
{
    let bang = wsi(s, pos);
    if bang < s.len() && s[bang] == '!' {
        if let Ok((e, a)) = parse_atom(s, bang + 1) {
            return Ok((e, Term::Not(a)));
        }
    }
    match parse_atom(s, pos) {
        Ok((e, a)) => Ok((e, Term::Atom(a))),
        Err(err) => Err(err),
    }
}

/// Whether `c c` follows the blanks at `p`; where it does, the position after it.
fn doubled(s: &[char], p: usize, c: char) -> (r: Option<usize>)
    requires
        p <= s@.len(),
    ensures
        r is Some <==> doubled_at(s@, p as int, c),
        r matches Some(n) ==> n == wsi_end(s@, p as int) + 2 && p < n <= s@.len(),
{
    let op = wsi(s, p);
    if s.len() - op >= 2 && s[op] == c && s[op + 1] == c {
        Some(op + 2)
    } else {
        None
    }
}

/// Reads terms joined by `&&`; one term alone is not wrapped in a list.
pub fn parse_and_expression(s: &[char], pos: usize) -> (r: PResult<AndExpression>)
    requires
        pos <= s@.len(),
    ensures
        r matches Ok((e, a)) ==> spec_and(s@, pos as int) == Some((e as int, and_view(a))),
        r is Err ==> spec_and(s@, pos as int) is None,
        r matches Ok((e, a)) ==> pos < e <= s@.len() && and_wf(a),
        r matches Err(err) ==> err.kind is Mismatch,
    decreases s@.len() - pos, 4int,
{
    let start = wsi(s, pos);
    let (mut p, first) = match parse_term(s, start) {
        Ok(x) => x,
        Err(err) => return Err(err),
    };
    let ghost p0 = p;
    let ghost first_v = term_view(first);
    let mut terms: Vec<Term> = Vec::new();
    proof {
        lemma_terms_view_push(Seq::empty(), first);
        assert(Seq::<Term>::empty().push(first) =~= seq![first]);
        assert(terms_view(Seq::empty()) =~= Seq::<TermV>::empty());
    }
    terms.push(first);
    loop
        invariant
            pos < p0 <= p <= s@.len(),
            terms@.len() >= 1,
            terms_view(terms@).len() == terms@.len(),
            terms_view(terms@)[0] == first_v,
            and_rest(s@, p0 as int).0 == and_rest(s@, p as int).0,
            seq![first_v] + and_rest(s@, p0 as int).1 == terms_view(terms@) + and_rest(
                s@,
                p as int,
            ).1,
        ensures
            pos < p <= s@.len(),
            terms@.len() >= 1,
            and_rest(s@, p0 as int).0 == p,
            seq![first_v] + and_rest(s@, p0 as int).1 == terms_view(terms@),
        decreases s@.len() - p,
    {
        let next = match doubled(s, p, '&') {
            Some(n) => n,
            None => {
                assert(terms_view(terms@) + Seq::<TermV>::empty() =~= terms_view(terms@));
                break;
            },
        };
        let at = wsi(s, next);
        match parse_term(s, at) {
            Ok((e, t)) => {
                proof {
                    lemma_terms_view_push(terms@, t);
                    let rest = and_rest(s@, e as int);
                    assert(terms_view(terms@) + (seq![term_view(t)] + rest.1) =~= terms_view(
                        terms@,
                    ).push(term_view(t)) + rest.1);
                }
                terms.push(t);
                p = e;
            },
            Err(_) => {
                assert(terms_view(terms@) + Seq::<TermV>::empty() =~= terms_view(terms@));
                break;
            },
        }
    }
    if terms.len() == 1 {
        let t = terms.remove(0);
        proof {
            assert(and_rest(s@, p0 as int).1.len() == 0);
        }
        Ok((p, AndExpression::Term(t)))
    } else {
        Ok((p, AndExpression::Expression(terms)))
    }
}

/// Reads `&&`-expressions joined by `||`; one alone is not wrapped in a list.
pub fn parse_or_expression(s: &[char], pos: usize) -> (r: PResult<OrExpression>)
    requires
        pos <= s@.len(),
    ensures
        r matches Ok((e, o)) ==> spec_or(s@, pos as int) == Some((e as int, or_view(o))),
        r is Err ==> spec_or(s@, pos as int) is None,
        r matches Ok((e, o)) ==> pos < e <= s@.len() && or_wf(o),
        r matches Err(err) ==> err.kind is Mismatch,
    decreases s@.len() - pos, 6int,
{
    let start = wsi(s, pos);
    let (mut p, first) = match parse_and_expression(s, start) {
        Ok(x) => x,
        Err(err) => return Err(err),
    };
    let ghost p0 = p;
    let ghost first_v = and_view(first);
    let mut ands: Vec<AndExpression> = Vec::new();
    proof {
        lemma_ands_view_push(Seq::empty(), first);
        assert(Seq::<AndExpression>::empty().push(first) =~= seq![first]);
        assert(ands_view(Seq::empty()) =~= Seq::<AndV>::empty());
    }
    ands.push(first);
    loop
        invariant
            pos < p0 <= p <= s@.len(),
            ands@.len() >= 1,
            ands_view(ands@).len() == ands@.len(),
            ands_view(ands@)[0] == first_v,
            forall|i: int| 0 <= i < ands@.len() ==> and_wf(#[trigger] ands@[i]),
            or_rest(s@, p0 as int).0 == or_rest(s@, p as int).0,
            seq![first_v] + or_rest(s@, p0 as int).1 == ands_view(ands@) + or_rest(
                s@,
                p as int,
            ).1,
        ensures
            pos < p <= s@.len(),
            ands@.len() >= 1,
            forall|i: int| 0 <= i < ands@.len() ==> and_wf(#[trigger] ands@[i]),
            or_rest(s@, p0 as int).0 == p,
            seq![first_v] + or_rest(s@, p0 as int).1 == ands_view(ands@),
        decreases s@.len() - p,
    {
        let next = match doubled(s, p, '|') {
            Some(n) => n,
            None => {
                assert(ands_view(ands@) + Seq::<AndV>::empty() =~= ands_view(ands@));
                break;
            },
        };
        let at = wsi(s, next);
        match parse_and_expression(s, at) {
            Ok((e, a)) => {
                proof {
                    lemma_ands_view_push(ands@, a);
                    let rest = or_rest(s@, e as int);
                    assert(ands_view(ands@) + (seq![and_view(a)] + rest.1) =~= ands_view(
                        ands@,
                    ).push(and_view(a)) + rest.1);
                }
                ands.push(a);
                p = e;
            },
            Err(_) => {
                assert(ands_view(ands@) + Seq::<AndV>::empty() =~= ands_view(ands@));
                break;
            },
        }
    }
    if ands.len() == 1 {
        let a = ands.remove(0);
        proof {
            assert(or_rest(s@, p0 as int).1.len() == 0);
        }
        Ok((p, OrExpression::Term(a)))
    } else {
        Ok((p, OrExpression::Expression(ands)))
    }
}

/// Reads an expression.
pub fn parse_expression(s: &[char], pos: usize) -> (r: PResult<Expression>)
    requires
        pos <= s@.len(),
    ensures
        r matches Ok((e, o)) ==> spec_or(s@, pos as int) == Some((e as int, or_view(o))),
        r is Err ==> spec_or(s@, pos as int) is None,
        r matches Ok((e, o)) ==> pos < e <= s@.len() && or_wf(o),
        r matches Err(err) ==> err.kind is Mismatch,
    decreases s@.len() - pos, 7int,
{
    parse_or_expression(s, pos)
}

/// Reads `if` and an expression.
pub fn parse_if_expression(s: &[char], pos: usize) -> (r: PResult<Expression>)
    requires
        pos <= s@.len(),
    ensures
        r matches Ok((e, o)) ==> spec_if_expression(s@, pos as int) == Some((e as int, or_view(o))),
        r is Err ==> spec_if_expression(s@, pos as int) is None,
        r matches Ok((e, o)) ==> pos < e <= s@.len() && or_wf(o),
        r matches Err(err) ==> err.kind is Mismatch,
{
    let k = wsi(s, pos);
    if s.len() - k >= 2 && s[k] == 'i' && s[k + 1] == 'f' {
        parse_expression(s, wsi(s, k + 2))
    } else {
        mismatch(pos)
    }
}

/// The value of an optional expression.
pub open spec fn opt_view(o: Option<Expression>) -> Option<OrV> {
    match o {
        Some(x) => Some(or_view(x)),
        None => None,
    }
}

/// An optional trailing `if <expression>`: where there is none, nothing is read.
pub open spec fn if_tail(s: Seq<char>, pos: int) -> (int, Option<OrV>) {
    match spec_if_expression(s, pos) {
        Some((e, x)) => (e, Some(x)),
        None => (pos, None),
    }
}

/// Reads an optional trailing `if <expression>`: `None`, with nothing read, where there is none.
pub fn parse_if_attribute(s: &[char], pos: usize) -> (r: (usize, Option<Expression>))
    requires
        pos <= s@.len(),
    ensures
        (r.0 as int, opt_view(r.1)) == if_tail(s@, pos as int),
        pos <= r.0 <= s@.len(),
        r.1 is None ==> r.0 == pos && spec_if_expression(s@, pos as int) is None,
        r.1 matches Some(o) ==> or_wf(o) && spec_if_expression(s@, pos as int) == Some((r.0 as int, or_view(o))),
{
    match parse_if_expression(s, pos) {
        Ok((e, x)) => (e, Some(x)),
        Err(_) => (pos, None),
    }
}

} // verus!
