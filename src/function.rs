//! Macro-language function calls: `$(name,param,param)`.

use vstd::prelude::*;
use crate::symbol::find_char;
use crate::text::{
    alnum, blanks, blanks_end, is_alnum, lemma_run_end, other_than, run_end, string_of,
    ws_comment, ws_comment_end,
};
use crate::{mismatch, PResult};

verus! {

/// A call of a macro-language function, such as `$(success,$(CC) --version)`.
#[derive(Debug, PartialEq, Eq)]
pub struct FunctionCall {
    pub name: String,
    pub parameters: Vec<Parameter>,
}

/// One comma-separated argument of a call: the tokens that make it up.
#[derive(Debug, PartialEq, Eq)]
pub struct Parameter {
    pub tokens: Vec<ExpressionToken>,
}

/// A piece of a parameter.
#[derive(Debug, PartialEq, Eq)]
pub enum ExpressionToken {
    Literal(String),
    Variable(String),
    DoubleQuotes(Vec<ExpressionToken>),
    SingleQuotes(String),
    Backtick(String),
    Function(Box<FunctionCall>),
    Space,
}

/// The mathematical value of a token.
pub enum TokenV {
    Literal(Seq<char>),
    Variable(Seq<char>),
    DoubleQuotes(Seq<TokenV>),
    SingleQuotes(Seq<char>),
    Backtick(Seq<char>),
    Function(CallV),
    Space,
}

/// The mathematical value of a call: its name and the tokens of each parameter.
pub struct CallV {
    pub name: Seq<char>,
    pub parameters: Seq<Seq<TokenV>>,
}

pub open spec fn token_view(t: ExpressionToken) -> TokenV
    decreases t,
{
    match t {
        ExpressionToken::Literal(s) => TokenV::Literal(s@),
        ExpressionToken::Variable(s) => TokenV::Variable(s@),
        ExpressionToken::DoubleQuotes(v) => TokenV::DoubleQuotes(tokens_view(v@)),
        ExpressionToken::SingleQuotes(s) => TokenV::SingleQuotes(s@),
        ExpressionToken::Backtick(s) => TokenV::Backtick(s@),
        ExpressionToken::Function(f) => TokenV::Function(call_view(*f)),
        ExpressionToken::Space => TokenV::Space,
    }
}

pub open spec fn tokens_view(ts: Seq<ExpressionToken>) -> Seq<TokenV>
    decreases ts,
{
    if ts.len() == 0 {
        Seq::empty()
    } else {
        tokens_view(ts.subrange(0, ts.len() - 1)).push(token_view(ts[ts.len() - 1]))
    }
}

pub open spec fn params_view(ps: Seq<Parameter>) -> Seq<Seq<TokenV>>
    decreases ps,
{
    if ps.len() == 0 {
        Seq::empty()
    } else {
        params_view(ps.subrange(0, ps.len() - 1)).push(tokens_view(ps[ps.len() - 1].tokens@))
    }
}

pub open spec fn call_view(f: FunctionCall) -> CallV
    decreases f,
{
    CallV { name: f.name@, parameters: params_view(f.parameters@) }
}

proof fn lemma_tokens_view_push(ts: Seq<ExpressionToken>, t: ExpressionToken)
    ensures
        tokens_view(ts.push(t)) == tokens_view(ts).push(token_view(t)),
{
    assert(ts.push(t).subrange(0, ts.len() as int) =~= ts);
}

proof fn lemma_params_view_push(ps: Seq<Parameter>, p: Parameter)
    ensures
        params_view(ps.push(p)) == params_view(ps).push(tokens_view(p.tokens@)),
{
    assert(ps.push(p).subrange(0, ps.len() as int) =~= ps);
}

/// A character of a function name.
pub open spec fn is_name_char(c: char) -> bool {
    is_alnum(c) || c == '=' || c == '-'
}

pub open spec fn name_chars() -> spec_fn(char) -> bool {
    |c: char| is_name_char(c)
}

/// A character of a variable name: a capital or `_`.
pub open spec fn is_variable_char(c: char) -> bool {
    ('A' <= c && c <= 'Z') || c == '_'
}

pub open spec fn variable_chars() -> spec_fn(char) -> bool {
    |c: char| is_variable_char(c)
}

/// A character of a word: a letter, a digit or `_`.
pub open spec fn word_chars() -> spec_fn(char) -> bool {
    |c: char| is_alnum(c) || c == '_'
}

pub open spec fn alnum_chars() -> spec_fn(char) -> bool {
    |c: char| is_alnum(c)
}

/// A character of a plain literal inside a parameter.
pub open spec fn is_literal_char(c: char) -> bool {
    is_alnum(c) || c == '+' || c == '(' || c == '<' || c == '>' || c == '%' || c == '&' || c
        == '\\' || c == '[' || c == ']' || c == '_' || c == '|' || c == '\'' || c == '.' || c
        == '-' || c == ':' || c == '\n' || c == '/'
}

fn literal_char(c: char) -> (r: bool)
    ensures
        r == is_literal_char(c),
{
    alnum(c) || c == '+' || c == '(' || c == '<' || c == '>' || c == '%' || c == '&' || c == '\\'
        || c == '[' || c == ']' || c == '_' || c == '|' || c == '\'' || c == '.' || c == '-' || c
        == ':' || c == '\n' || c == '/'
}

/// The end of a run of literal characters and `\$` pairs from `pos` on.
pub open spec fn literal_run_end(s: Seq<char>, pos: int) -> int
    decreases s.len() - pos,
{
    if 0 <= pos < s.len() && is_literal_char(s[pos]) {
        literal_run_end(s, pos + 1)
    } else if 0 <= pos && pos + 1 < s.len() && s[pos] == '\\' && s[pos + 1] == '$' {
        literal_run_end(s, pos + 2)
    } else {
        pos
    }
}

proof fn lemma_literal_run_end(s: Seq<char>, pos: int)
    requires
        0 <= pos <= s.len(),
    ensures
        pos <= literal_run_end(s, pos) <= s.len(),
    decreases s.len() - pos,
{
    if 0 <= pos < s.len() && is_literal_char(s[pos]) {
        lemma_literal_run_end(s, pos + 1);
    } else if 0 <= pos && pos + 1 < s.len() && s[pos] == '\\' && s[pos + 1] == '$' {
        lemma_literal_run_end(s, pos + 2);
    }
}

/// Whether `$(` stands at `pos`.
pub open spec fn call_open_at(s: Seq<char>, pos: int) -> bool {
    0 <= pos && pos + 1 < s.len() && s[pos] == '$' && s[pos + 1] == '('
}

/// `$(NAME)` with a name of capitals and `_`: a variable reference. The name keeps the blanks before it.
pub open spec fn spec_variable(s: Seq<char>, pos: int) -> Option<(int, TokenV)> {
    if !call_open_at(s, pos) {
        None
    } else {
        let st = ws_comment_end(s, pos + 2);
        let e = run_end(s, st, variable_chars());
        if e > st && e < s.len() && s[e] == ')' {
            Some((e + 1, TokenV::Variable(s.subrange(pos + 2, e))))
        } else {
            None
        }
    }
}

/// `%name(arg)`, an operand of an assembler instruction.
pub open spec fn spec_instruction(s: Seq<char>, pos: int) -> Option<(int, Seq<char>)> {
    if !(0 <= pos < s.len() && s[pos] == '%') {
        None
    } else {
        let st = ws_comment_end(s, pos + 1);
        let e = run_end(s, st, word_chars());
        let a = e + 1;
        let b = run_end(s, a, alnum_chars());
        if e > st && e < s.len() && s[e] == '(' && b > a && b < s.len() && s[b] == ')' {
            Some((b + 1, s.subrange(pos, e) + seq!['('] + s.subrange(a, b) + seq![')']))
        } else {
            None
        }
    }
}

/// A literal: `$WORD`, an instruction operand, or a run of literal characters.
pub open spec fn spec_literal(s: Seq<char>, pos: int) -> Option<(int, TokenV)> {
    let st = ws_comment_end(s, pos);
    let de = run_end(s, st + 1, alnum_chars());
    if st < s.len() && s[st] == '$' && de > st + 1 {
        Some((de, TokenV::Literal(s.subrange(st, de))))
    } else if spec_instruction(s, pos) is Some {
        let (e, t) = spec_instruction(s, pos)->0;
        Some((e, TokenV::Literal(t)))
    } else {
        let e = literal_run_end(s, st);
        if e > st {
            Some((e, TokenV::Literal(s.subrange(pos, e))))
        } else {
            None
        }
    }
}

/// A double-quoted run of tokens at `pos`.
pub open spec fn spec_double_quoted(s: Seq<char>, pos: int) -> Option<(int, TokenV)>
    decreases s.len() - pos, 0int,
{
    if 0 <= pos < s.len() && s[pos] == '"' {
        match spec_tokens(s, pos + 1) {
            Some((e, ts)) => if 0 <= e < s.len() && s[e] == '"' {
                Some((e + 1, TokenV::DoubleQuotes(ts)))
            } else {
                None
            },
            None => None,
        }
    } else {
        None
    }
}

/// A text between `open` at `pos` and the next `close`.
pub open spec fn enclosed_end(s: Seq<char>, pos: int, open: char, close: char) -> int {
    if 0 <= pos < s.len() && s[pos] == open {
        run_end(s, pos + 1, other_than(close))
    } else {
        -1
    }
}

/// One token of a parameter; see [`parse_expression_token_parameter`].
pub open spec fn spec_token(s: Seq<char>, pos: int) -> Option<(int, TokenV)>
    decreases s.len() - pos, 1int,
{
    let q = ws_comment_end(s, pos);
    if pos < 0 || pos > s.len() {
        None
    } else if pos < s.len() && s[pos] == '=' {
        Some((pos + 1, TokenV::Literal(s.subrange(pos, pos + 1))))
    } else if blanks_end(s, pos) > pos {
        Some((blanks_end(s, pos), TokenV::Space))
    } else if pos + 1 < s.len() && s[pos] == '2' && s[pos + 1] == '>' {
        Some((pos + 2, TokenV::Literal(s.subrange(pos, pos + 2))))
    } else if spec_double_quoted(s, pos) is Some {
        spec_double_quoted(s, pos)
    } else if 0 <= enclosed_end(s, pos, '(', ')') < s.len() {
        let close = enclosed_end(s, pos, '(', ')');
        Some((close + 1, TokenV::Literal(s.subrange(pos, close + 1))))
    } else if 0 <= enclosed_end(s, pos, '`', '`') < s.len() {
        let close = enclosed_end(s, pos, '`', '`');
        Some((close + 1, TokenV::Backtick(s.subrange(pos + 1, close))))
    } else if 0 <= enclosed_end(s, q, '\'', '\'') < s.len() {
        let close = enclosed_end(s, q, '\'', '\'');
        Some((close + 1, TokenV::SingleQuotes(s.subrange(q + 1, close))))
    } else if spec_literal(s, pos) is Some {
        spec_literal(s, pos)
    } else if spec_variable(s, pos) is Some {
        spec_variable(s, pos)
    } else {
        match spec_call(s, pos) {
            Some((e, f)) => Some((e, TokenV::Function(f))),
            None => None,
        }
    }
}

/// Tokens after a first one, for as long as there are some.
pub open spec fn tokens_rest(s: Seq<char>, pos: int) -> (int, Seq<TokenV>)
    decreases s.len() - pos, 2int,
{
    if pos < 0 || pos >= s.len() {
        (pos, Seq::empty())
    } else {
        match spec_token(s, pos) {
            Some((e, t)) => if pos < e <= s.len() {
                let (e2, rest) = tokens_rest(s, e);
                (e2, seq![t] + rest)
            } else {
                (pos, Seq::empty())
            },
            None => (pos, Seq::empty()),
        }
    }
}

/// One or more tokens.
pub open spec fn spec_tokens(s: Seq<char>, pos: int) -> Option<(int, Seq<TokenV>)>
    decreases s.len() - pos, 3int,
{
    if pos < 0 || pos > s.len() {
        None
    } else {
        match spec_token(s, pos) {
            Some((e, t)) => if pos < e <= s.len() {
                let (e2, rest) = tokens_rest(s, e);
                Some((e2, seq![t] + rest))
            } else {
                None
            },
            None => None,
        }
    }
}

/// The parameters after a first one: `,` then a parameter, for as long as there are some.
pub open spec fn params_rest(s: Seq<char>, pos: int) -> (int, Seq<Seq<TokenV>>)
    decreases s.len() - pos, 4int,
{
    let sep = ws_comment_end(s, pos);
    let at = ws_comment_end(s, sep + 1);
    if pos < 0 || pos > s.len() || !(0 <= sep < s.len() && s[sep] == ',') || !(pos < at
        <= s.len()) {
        (pos, Seq::empty())
    } else {
        match spec_tokens(s, at) {
            Some((e, prm)) => if pos < e <= s.len() {
                let (e2, rest) = params_rest(s, e);
                (e2, seq![prm] + rest)
            } else {
                (pos, Seq::empty())
            },
            None => (pos, Seq::empty()),
        }
    }
}

/// The parameters of a call, from where the first one may start; none if it does not.
pub open spec fn spec_params(s: Seq<char>, pos: int, first_at: int) -> (int, Seq<Seq<TokenV>>)
    decreases s.len() - pos, 5int,
{
    if !(pos <= first_at <= s.len()) {
        (pos, Seq::empty())
    } else {
        match spec_tokens(s, first_at) {
            Some((e, prm)) => if first_at < e <= s.len() {
                let (e2, rest) = params_rest(s, e);
                (e2, seq![prm] + rest)
            } else {
                (pos, Seq::empty())
            },
            None => (pos, Seq::empty()),
        }
    }
}

/// `$(name)` or `$(name, param, ...)`; the comma after the name is optional.
pub open spec fn spec_call(s: Seq<char>, pos: int) -> Option<(int, CallV)>
    decreases s.len() - pos, 0int,
{
    if !call_open_at(s, pos) {
        None
    } else {
        let st = ws_comment_end(s, pos + 2);
        let ne = run_end(s, st, name_chars());
        let c = ws_comment_end(s, ne);
        let p1 = if 0 <= c < s.len() && s[c] == ',' {
            c + 1
        } else {
            ne
        };
        let first_at = ws_comment_end(s, p1);
        if !(pos < st < ne <= s.len() && pos < p1 <= s.len()) {
            None
        } else {
            let (p2, params) = spec_params(s, p1, first_at);
            let close = ws_comment_end(s, p2);
            if 0 <= close < s.len() && s[close] == ')' {
                Some((close + 1, CallV { name: s.subrange(st, ne), parameters: params }))
            } else {
                None
            }
        }
    }
}

/// The end of the run of characters from `pos` on that `class` accepts:
/// 0 is a function name, 1 a variable name, 2 a word, 3 letters and digits.
fn run_of(s: &[char], pos: usize, class: u8) -> (r: usize)
    requires
        pos <= s@.len(),
        class <= 3,
    ensures
        pos <= r <= s@.len(),
        class == 0 ==> r == run_end(s@, pos as int, name_chars()),
        class == 1 ==> r == run_end(s@, pos as int, variable_chars()),
        class == 2 ==> r == run_end(s@, pos as int, word_chars()),
        class == 3 ==> r == run_end(s@, pos as int, alnum_chars()),
{
    let ghost p = if class == 0 {
        name_chars()
    } else if class == 1 {
        variable_chars()
    } else if class == 2 {
        word_chars()
    } else {
        alnum_chars()
    };
    let mut i = pos;
    loop
        invariant
            pos <= i <= s@.len(),
            run_end(s@, i as int, p) == run_end(s@, pos as int, p),
            p == (if class == 0 {
                name_chars()
            } else if class == 1 {
                variable_chars()
            } else if class == 2 {
                word_chars()
            } else {
                alnum_chars()
            }),
        ensures
            pos <= i <= s@.len(),
            run_end(s@, i as int, p) == run_end(s@, pos as int, p),
            run_end(s@, i as int, p) == i,
        decreases s@.len() - i,
    {
        if i >= s.len() {
            break;
        }
        let c = s[i];
        let ok = if class == 0 {
            alnum(c) || c == '=' || c == '-'
        } else if class == 1 {
            ('A' <= c && c <= 'Z') || c == '_'
        } else if class == 2 {
            alnum(c) || c == '_'
        } else {
            alnum(c)
        };
        assert(ok == p(c));
        if !ok {
            break;
        }
        i += 1;
    }
    proof {
        lemma_run_end(s@, pos as int, p);
    }
    i
}

/// Reads `$(NAME)` where the name holds only capitals and underscores: a variable reference.
pub fn parse_expression_token_variable_parameter(s: &[char], pos: usize) -> (r: PResult<
    ExpressionToken,
>)
    requires
        pos <= s@.len(),
    ensures
        r matches Ok((e, t)) ==> spec_variable(s@, pos as int) == Some((e as int, token_view(t))),
        r is Err ==> spec_variable(s@, pos as int) is None,
        r matches Ok((e, t)) ==> pos < e <= s@.len() && t is Variable,
        r matches Err(err) ==> err.kind is Mismatch,
{
    if !(s.len() - pos >= 2 && s[pos] == '$' && s[pos + 1] == '(') {
        return mismatch(pos);
    }
    let st = ws_comment(s, pos + 2);
    let e = run_of(s, st, 1);
    if e > st && e < s.len() && s[e] == ')' {
        Ok((e + 1, ExpressionToken::Variable(string_of(s, pos + 2, e))))
    } else {
        mismatch(pos)
    }
}

/// Reads `%name(arg)`, an operand of an assembler instruction.
fn parse_instruction_parameter(s: &[char], pos: usize) -> (r: PResult<String>)
    requires
        pos <= s@.len(),
    ensures
        r matches Ok((e, t)) ==> spec_instruction(s@, pos as int) == Some((e as int, t@)),
        r is Err ==> spec_instruction(s@, pos as int) is None,
        r matches Ok((e, _)) ==> pos < e <= s@.len(),
        r matches Err(err) ==> err.kind is Mismatch,
{
    if !(pos < s.len() && s[pos] == '%') {
        return mismatch(pos);
    }
    let st = ws_comment(s, pos + 1);
    let e = run_of(s, st, 2);
    if !(e > st && e < s.len() && s[e] == '(') {
        return mismatch(pos);
    }
    let a = e + 1;
    let b = run_of(s, a, 3);
    if !(b > a && b < s.len() && s[b] == ')') {
        return mismatch(pos);
    }
    // the operand is written back as it stands: `%`, the name, `(`, the argument, `)`
    let t = string_of(s, pos, b + 1);
    proof {
        assert(t@ =~= s@.subrange(pos as int, e as int) + seq!['('] + s@.subrange(a as int, b as int) + seq![')']);
    }
    Ok((b + 1, t))
}

/// Reads a literal: `$WORD`, an instruction operand, or a run of word and punctuation characters.
fn parse_literal_parameter(s: &[char], pos: usize) -> (r: PResult<ExpressionToken>)
    requires
        pos <= s@.len(),
    ensures
        r matches Ok((e, t)) ==> spec_literal(s@, pos as int) == Some((e as int, token_view(t))),
        r is Err ==> spec_literal(s@, pos as int) is None,
        r matches Ok((e, t)) ==> pos < e <= s@.len() && t is Literal,
        r matches Err(err) ==> err.kind is Mismatch,
{
    let st = ws_comment(s, pos);
    if st < s.len() && s[st] == '$' {
        let de = run_of(s, st + 1, 3);
        if de > st + 1 {
            return Ok((de, ExpressionToken::Literal(string_of(s, st, de))));
        }
    }
    if let Ok((e, t)) = parse_instruction_parameter(s, pos) {
        return Ok((e, ExpressionToken::Literal(t)));
    }
    let mut e = st;
    loop
        invariant
            st <= e <= s@.len(),
            literal_run_end(s@, e as int) == literal_run_end(s@, st as int),
        ensures
            literal_run_end(s@, e as int) == e,
            st <= e <= s@.len(),
            literal_run_end(s@, st as int) == e,
        decreases s@.len() - e,
    {
        if e < s.len() && literal_char(s[e]) {
            e += 1;
        } else if s.len() - e > 1 && s[e] == '\\' && s[e + 1] == '$' {
            e += 2;
        } else {
            break;
        }
    }
    if e == st {
        return mismatch(pos);
    }
    Ok((e, ExpressionToken::Literal(string_of(s, pos, e))))
}

/// Reads one token of a parameter. The alternatives are tried in this order:
/// `=`, blanks, `2>`, a double-quoted run of tokens, a parenthesised text, a
/// backtick text, a single-quoted text, a literal, a variable reference, a call.
pub fn parse_expression_token_parameter(s: &[char], pos: usize) -> (r: PResult<ExpressionToken>)
    requires
        pos <= s@.len(),
    ensures
        r matches Ok((e, t)) ==> spec_token(s@, pos as int) == Some((e as int, token_view(t))),
        r is Err ==> spec_token(s@, pos as int) is None,
        r matches Ok((e, _)) ==> pos < e <= s@.len(),
        r matches Err(err) ==> err.kind is Mismatch,
    decreases s@.len() - pos, 1int,
{
    if pos < s.len() && s[pos] == '=' {
        return Ok((pos + 1, ExpressionToken::Literal(string_of(s, pos, pos + 1))));
    }
    let b = blanks(s, pos);
    if b > pos {
        return Ok((b, ExpressionToken::Space));
    }
    if s.len() - pos >= 2 && s[pos] == '2' && s[pos + 1] == '>' {
        return Ok((pos + 2, ExpressionToken::Literal(string_of(s, pos, pos + 2))));
    }
    if pos < s.len() && s[pos] == '"' {
        if let Ok((e, tokens)) = parse_expression_parameter(s, pos + 1) {
            if e < s.len() && s[e] == '"' {
                return Ok((e + 1, ExpressionToken::DoubleQuotes(tokens)));
            }
        }
    }
    if pos < s.len() && s[pos] == '(' {
        let close = find_char(s, pos + 1, ')');
        if close < s.len() {
            return Ok((close + 1, ExpressionToken::Literal(string_of(s, pos, close + 1))));
        }
    }
    if pos < s.len() && s[pos] == '`' {
        let close = find_char(s, pos + 1, '`');
        if close < s.len() {
            return Ok((close + 1, ExpressionToken::Backtick(string_of(s, pos + 1, close))));
        }
    }
    let q = ws_comment(s, pos);
    if q < s.len() && s[q] == '\'' {
        let close = find_char(s, q + 1, '\'');
        if close < s.len() {
            return Ok((close + 1, ExpressionToken::SingleQuotes(string_of(s, q + 1, close))));
        }
    }
    if let Ok(r) = parse_literal_parameter(s, pos) {
        return Ok(r);
    }
    if let Ok(r) = parse_expression_token_variable_parameter(s, pos) {
        return Ok(r);
    }
    match parse_function_call(s, pos) {
        Ok((e, f)) => Ok((e, ExpressionToken::Function(Box::new(f)))),
        Err(_) => mismatch(pos),
    }
}

/// Reads one or more tokens.
pub fn parse_expression_parameter(s: &[char], pos: usize) -> (r: PResult<Vec<ExpressionToken>>)
    requires
        pos <= s@.len(),
    ensures
        r matches Ok((e, v)) ==> spec_tokens(s@, pos as int) == Some((e as int, tokens_view(v@))),
        r is Err ==> spec_tokens(s@, pos as int) is None,
        r matches Ok((e, v)) ==> pos < e <= s@.len() && v@.len() >= 1,
        r matches Err(err) ==> err.kind is Mismatch,
    decreases s@.len() - pos, 3int,
{
    let (mut p, first) = match parse_expression_token_parameter(s, pos) {
        Ok(x) => x,
        Err(e) => return Err(e),
    };
    let mut v: Vec<ExpressionToken> = Vec::new();
    v.push(first);
    let ghost p1 = p;
    proof {
        lemma_tokens_view_push(Seq::empty(), first);
        assert(Seq::<ExpressionToken>::empty().push(first) =~= v@);
        assert(tokens_view(Seq::empty()) =~= Seq::<TokenV>::empty());
    }
    loop
        invariant
            pos < p1 <= p <= s@.len(),
            v@.len() >= 1,
            tokens_rest(s@, p1 as int).0 == tokens_rest(s@, p as int).0,
            seq![tokens_view(v@)[0]] + tokens_rest(s@, p1 as int).1 == tokens_view(v@)
                + tokens_rest(s@, p as int).1,
            tokens_view(v@).len() == v@.len(),
            tokens_view(v@)[0] == token_view(first),
        ensures
            pos < p <= s@.len(),
            tokens_rest(s@, p1 as int).0 == p,
            seq![tokens_view(v@)[0]] + tokens_rest(s@, p1 as int).1 == tokens_view(v@),
        decreases s@.len() - p,
    {
        if p >= s.len() {
            assert(tokens_view(v@) + Seq::<TokenV>::empty() =~= tokens_view(v@));
            break;
        }
        match parse_expression_token_parameter(s, p) {
            Ok((e, t)) => {
                proof {
                    lemma_tokens_view_push(v@, t);
                    let rest = tokens_rest(s@, e as int);
                    assert(tokens_view(v@) + (seq![token_view(t)] + rest.1) =~= tokens_view(v@).push(token_view(t)) + rest.1);
                }
                v.push(t);
                p = e;
            },
            Err(_) => {
                assert(tokens_view(v@) + Seq::<TokenV>::empty() =~= tokens_view(v@));
                break;
            },
        }
    }
    proof {
        assert(tokens_view(v@)[0] == token_view(first));
        assert(tokens_view(v@) =~= seq![token_view(first)] + tokens_rest(s@, p1 as int).1);
    }
    Ok((p, v))
}

/// Reads one parameter of a call.
pub fn parse_parameter(s: &[char], pos: usize) -> (r: PResult<Parameter>)
    requires
        pos <= s@.len(),
    ensures
        r matches Ok((e, prm)) ==> spec_tokens(s@, pos as int) == Some((e as int, tokens_view(prm.tokens@))),
        r is Err ==> spec_tokens(s@, pos as int) is None,
        r matches Ok((e, prm)) ==> pos < e <= s@.len() && prm.tokens@.len() >= 1,
        r matches Err(err) ==> err.kind is Mismatch,
    decreases s@.len() - pos, 4int,
{
    match parse_expression_parameter(s, pos) {
        Ok((e, tokens)) => Ok((e, Parameter { tokens })),
        Err(e) => Err(e),
    }
}

/// Reads `$(name)` or `$(name, param, ...)`.
pub fn parse_function_call(s: &[char], pos: usize) -> (r: PResult<FunctionCall>)
    requires
        pos <= s@.len(),
    ensures
        r matches Ok((e, f)) ==> spec_call(s@, pos as int) == Some((e as int, call_view(f))),
        r is Err ==> spec_call(s@, pos as int) is None,
        r matches Ok((e, _)) ==> pos < e <= s@.len(),
        r matches Err(err) ==> err.kind is Mismatch,
    decreases s@.len() - pos, 0int,
{
    if !(s.len() - pos >= 2 && s[pos] == '$' && s[pos + 1] == '(') {
        return mismatch(pos);
    }
    let st = ws_comment(s, pos + 2);
    let ne = run_of(s, st, 0);
    let c = ws_comment(s, ne);
    let p1 = if c < s.len() && s[c] == ',' {
        c + 1
    } else {
        ne
    };
    if ne <= st {
        return mismatch(pos);
    }
    let name = string_of(s, st, ne);
    let first_at = ws_comment(s, p1);
    let mut parameters: Vec<Parameter> = Vec::new();
    let mut p = p1;
    if let Ok((e, prm)) = parse_parameter(s, first_at) {
        proof {
            lemma_params_view_push(Seq::empty(), prm);
            assert(Seq::<Parameter>::empty().push(prm) =~= seq![prm]);
            assert(params_view(Seq::empty()) =~= Seq::<Seq<TokenV>>::empty());
        }
        parameters.push(prm);
        p = e;
        let ghost p0 = e;
        loop
            invariant
                pos < p0 <= p <= s@.len(),
                parameters@.len() >= 1,
                params_view(parameters@).len() == parameters@.len(),
                params_view(parameters@)[0] == tokens_view(prm.tokens@),
                params_rest(s@, p0 as int).0 == params_rest(s@, p as int).0,
                seq![params_view(parameters@)[0]] + params_rest(s@, p0 as int).1 == params_view(
                    parameters@,
                ) + params_rest(s@, p as int).1,
            ensures
                pos < p <= s@.len(),
                params_rest(s@, p0 as int).0 == p,
                seq![params_view(parameters@)[0]] + params_rest(s@, p0 as int).1 == params_view(
                    parameters@,
                ),
            decreases s@.len() - p,
        {
            let sep = ws_comment(s, p);
            if !(sep < s.len() && s[sep] == ',') {
                assert(params_view(parameters@) + Seq::<Seq<TokenV>>::empty() =~= params_view(parameters@));
                break;
            }
            let at = ws_comment(s, sep + 1);
            match parse_parameter(s, at) {
                Ok((e, prm2)) => {
                    proof {
                        lemma_params_view_push(parameters@, prm2);
                        let rest = params_rest(s@, e as int);
                        assert(params_view(parameters@) + (seq![tokens_view(prm2.tokens@)] + rest.1)
                            =~= params_view(parameters@).push(tokens_view(prm2.tokens@)) + rest.1);
                    }
                    parameters.push(prm2);
                    p = e;
                },
                Err(_) => {
                    assert(params_view(parameters@) + Seq::<Seq<TokenV>>::empty() =~= params_view(parameters@));
                    break;
                },
            }
        }
        proof {
            assert(params_view(parameters@) =~= seq![tokens_view(prm.tokens@)] + params_rest(s@, p0 as int).1);
        }
    }
    let close = ws_comment(s, p);
    if close < s.len() && s[close] == ')' {
        Ok((close + 1, FunctionCall { name, parameters }))
    } else {
        mismatch(pos)
    }
}

} // verus!
