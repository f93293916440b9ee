//! The attributes of menu entries: `prompt`, `default`, `depends on`, `select`, and the rest.

use vstd::prelude::*;
use crate::expression::{
    if_tail, opt_view, or_view, or_wf, parse_expression, parse_if_attribute, spec_or, Expression,
    OrV,
};
use crate::help::{parse_help, spec_help_keyword, spec_help_text};
use crate::number::{decimal_text, number_at, number_end, number_value, parse_number};
use crate::symbol::{
    bareword_end, find_char, parse_constant_symbol, parse_symbol, spec_symbol, symbol_view, Symbol,
    SymbolV,
};
use crate::text::{
    alnum, find_line_end, has_tag, is_alnum, line_end, other_than, run_end, string_of, tag,
    ws_comment, ws_comment_end, wsi, wsi_end,
};
use crate::{mismatch, PResult};

verus! {

/// The prompt shown to the user, with an optional condition.
#[derive(Debug, PartialEq, Eq)]
pub struct Prompt {
    pub prompt: String,
    pub condition: Option<Expression>,
}

/// `select SYMBOL [if expr]`: forces a lower bound on another symbol.
#[derive(Debug, PartialEq, Eq)]
pub struct Select {
    pub symbol: String,
    pub condition: Option<Expression>,
}

/// `range lower upper [if expr]`.
#[derive(Debug, PartialEq, Eq)]
pub struct Range {
    pub lower_bound: Symbol,
    pub upper_bound: Symbol,
    pub condition: Option<Expression>,
}

/// `default expr [if expr]`. Among several, the first visible one is active.
#[derive(Debug, PartialEq, Eq)]
pub struct DefaultAttribute {
    pub expression: Expression,
    pub condition: Option<Expression>,
}

/// `imply SYMBOL [if expr]`: a weak `select`.
#[derive(Debug, PartialEq, Eq)]
pub struct Imply {
    pub symbol: Symbol,
    pub condition: Option<Expression>,
}

/// `def_bool expr [if expr]`.
#[derive(Debug, PartialEq, Eq)]
pub struct DefBool {
    pub expression: Expression,
    pub condition: Option<Expression>,
}

/// `def_tristate expr [if expr]`.
#[derive(Debug, PartialEq, Eq)]
pub struct DefTristate {
    pub expression: Expression,
    pub condition: Option<Expression>,
}

/// The values of the `option` attribute.
#[derive(Debug, PartialEq, Eq)]
pub enum OptionValues {
    DefconfigList,
    Modules,
    AllNoConfigY,
    Env(String),
}

/// A type, with its inline prompt, or a type together with a default value.
#[derive(Debug, PartialEq, Eq)]
pub enum Type {
    DefBool(Expression),
    DefTristate(Expression),
    Bool(Option<String>),
    Tristate(Option<String>),
    String(Option<String>),
    Hex(Option<String>),
    Int(Option<String>),
}

/// A type declaration with an optional condition.
#[derive(Debug, PartialEq, Eq)]
pub struct ConfigType {
    pub kind: Type,
    pub condition: Option<Expression>,
}

/// An attribute of a menu entry.
#[derive(Debug, PartialEq, Eq)]
pub enum Attribute {
    Help(String),
    Prompt(Prompt),
    Modules,
    Select(Select),
    DependsOn(Expression),
    Optional,
    Range(Range),
    Visible(Option<Expression>),
    Default(DefaultAttribute),
    Imply(Imply),
    Requires(Expression),
    Type(ConfigType),
    Option(OptionValues),
    Transitional,
}

/// The value of an `option`.
pub enum OptionV {
    DefconfigList,
    Modules,
    AllNoConfigY,
    Env(Seq<char>),
}

pub open spec fn option_view(o: OptionValues) -> OptionV {
    match o {
        OptionValues::DefconfigList => OptionV::DefconfigList,
        OptionValues::Modules => OptionV::Modules,
        OptionValues::AllNoConfigY => OptionV::AllNoConfigY,
        OptionValues::Env(s) => OptionV::Env(s@),
    }
}

/// The value of a type declaration.
pub enum TypeV {
    DefBool(OrV),
    DefTristate(OrV),
    Bool(Option<Seq<char>>),
    Tristate(Option<Seq<char>>),
    String(Option<Seq<char>>),
    Hex(Option<Seq<char>>),
    Int(Option<Seq<char>>),
}

pub open spec fn opt_text(o: Option<String>) -> Option<Seq<char>> {
    match o {
        Some(t) => Some(t@),
        None => None,
    }
}

pub open spec fn type_view(t: Type) -> TypeV {
    match t {
        Type::DefBool(x) => TypeV::DefBool(or_view(x)),
        Type::DefTristate(x) => TypeV::DefTristate(or_view(x)),
        Type::Bool(p) => TypeV::Bool(opt_text(p)),
        Type::Tristate(p) => TypeV::Tristate(opt_text(p)),
        Type::String(p) => TypeV::String(opt_text(p)),
        Type::Hex(p) => TypeV::Hex(opt_text(p)),
        Type::Int(p) => TypeV::Int(opt_text(p)),
    }
}

/// The type a type keyword names: 0 bool, 1 hex, 2 int, 3 string, 4 tristate.
pub open spec fn typed_v(kind: int, prompt: Option<Seq<char>>) -> TypeV {
    if kind == 0 {
        TypeV::Bool(prompt)
    } else if kind == 1 {
        TypeV::Hex(prompt)
    } else if kind == 2 {
        TypeV::Int(prompt)
    } else if kind == 3 {
        TypeV::String(prompt)
    } else {
        TypeV::Tristate(prompt)
    }
}

/// Where the keyword `k` ends when it follows the blanks and comments at `pos`.
pub open spec fn keyword_at(s: Seq<char>, pos: int, k: Seq<char>) -> Option<int> {
    if has_tag(s, ws_comment_end(s, pos), k) {
        Some(ws_comment_end(s, pos) + k.len())
    } else {
        None
    }
}

/// The first position in `s[a..to]` that is not white space, or `to`.
pub open spec fn trim_start(s: Seq<char>, a: int, to: int) -> int
    decreases to - a,
{
    if a < to && is_trim_space(s[a]) {
        trim_start(s, a + 1, to)
    } else {
        a
    }
}

/// The end of `s[a..b]` without its trailing white space.
pub open spec fn trim_end(s: Seq<char>, a: int, b: int) -> int
    decreases b - a,
{
    if b > a && is_trim_space(s[b - 1]) {
        trim_end(s, a, b - 1)
    } else {
        b
    }
}

/// `s[from..to]` without the white space at either end.
pub open spec fn trim(s: Seq<char>, from: int, to: int) -> Seq<char> {
    s.subrange(trim_start(s, from, to), trim_end(s, trim_start(s, from, to), to))
}

/// Where a keyword ends when it follows the blanks and comments at `pos`.
fn keyword(s: &[char], pos: usize, k: &str) -> (r: Option<usize>)
    requires
        pos <= s@.len(),
    ensures
        r matches Some(e) ==> keyword_at(s@, pos as int, k@) == Some(e as int),
        r is None ==> keyword_at(s@, pos as int, k@) is None,
        r is Some <==> has_tag(s@, ws_comment_end(s@, pos as int), k@),
        r matches Some(e) ==> e == ws_comment_end(s@, pos as int) + k@.len() && pos <= e <= s@.len(),
{
    let st = ws_comment(s, pos);
    tag(s, st, k)
}

/// A character of a double-quoted prompt.
pub open spec fn is_prompt_char(c: char) -> bool {
    is_alnum(c) || c == ' ' || c == '\t' || c == '\n' || c == '\r' || c == '&' || c == '#' || c
        == '*' || c == '|' || c == '!' || c == '\u{c9}' || c == '{' || c == '}' || c == '^' || c
        == '<' || c == '>' || c == '%' || c == '[' || c == ']' || c == '(' || c == ')' || c == '+'
        || c == '\'' || c == '=' || c == ',' || c == ':' || c == ';' || c == '\u{3bc}' || c == '-'
        || c == '?' || c == '.' || c == '_' || c == '$' || c == '/'
}

fn prompt_char(c: char) -> (r: bool)
    ensures
        r == is_prompt_char(c),
{
    alnum(c) || c == ' ' || c == '\t' || c == '\n' || c == '\r' || c == '&' || c == '#' || c == '*'
        || c == '|' || c == '!' || c == '\u{c9}' || c == '{' || c == '}' || c == '^' || c == '<'
        || c == '>' || c == '%' || c == '[' || c == ']' || c == '(' || c == ')' || c == '+' || c
        == '\'' || c == '=' || c == ',' || c == ':' || c == ';' || c == '\u{3bc}' || c == '-' || c
        == '?' || c == '.' || c == '_' || c == '$' || c == '/'
}

/// Whether `c` is white space that `trim` removes.
pub open spec fn is_trim_space(c: char) -> bool {
    c == ' ' || c == '\t' || c == '\n' || c == '\r'
}

/// `s[from..to]` without the white space at either end.
pub fn trimmed(s: &[char], from: usize, to: usize) -> (r: String)
    requires
        from <= to <= s@.len(),
    ensures
        r@ == trim(s@, from as int, to as int),
{
    let mut a = from;
    while a < to && (s[a] == ' ' || s[a] == '\t' || s[a] == '\n' || s[a] == '\r')
        invariant
            from <= a <= to <= s@.len(),
            trim_start(s@, a as int, to as int) == trim_start(s@, from as int, to as int),
        decreases to - a,
    {
        a += 1;
    }
    let mut b = to;
    while b > a && (s[b - 1] == ' ' || s[b - 1] == '\t' || s[b - 1] == '\n' || s[b - 1] == '\r')
        invariant
            a <= b <= to <= s@.len(),
            trim_end(s@, a as int, b as int) == trim_end(s@, a as int, to as int),
        decreases b,
    {
        b -= 1;
    }
    string_of(s, a, b)
}

/// The end of a run of prompt characters and `\"` pairs from `pos` on.
pub open spec fn prompt_run_end(s: Seq<char>, pos: int) -> int
    decreases s.len() - pos,
{
    if 0 <= pos < s.len() && is_prompt_char(s[pos]) {
        prompt_run_end(s, pos + 1)
    } else if 0 <= pos && pos + 1 < s.len() && s[pos] == '\\' && s[pos + 1] == '"' {
        prompt_run_end(s, pos + 2)
    } else {
        pos
    }
}

/// The text of a prompt; see [`parse_prompt_value`].
pub open spec fn spec_prompt_value(s: Seq<char>, pos: int) -> Option<(int, Seq<char>)> {
    let st = ws_comment_end(s, pos);
    let b = prompt_run_end(s, st + 1);
    let close = run_end(s, st + 1, other_than('\''));
    let eol = line_end(s, pos);
    if 0 <= st < s.len() && s[st] == '"' && b > st + 1 && b < s.len() && s[b] == '"' {
        Some((b + 1, trim(s, st + 1, b)))
    } else if 0 <= st < s.len() && s[st] == '\'' && close < s.len() {
        Some((close + 1, trim(s, st + 1, close)))
    } else if trim(s, pos, eol).len() == 0 {
        None
    } else if eol < s.len() {
        Some((eol + 1, trim(s, pos, eol)))
    } else if eol > pos {
        Some((eol, trim(s, pos, eol)))
    } else {
        None
    }
}

/// Reads the text of a prompt: a double-quoted text (where `\"` stands for a
/// quote), a single-quoted text, or else the rest of the line if it is not blank.
/// The text is trimmed.
pub fn parse_prompt_value(s: &[char], pos: usize) -> (r: PResult<String>)
    requires
        pos <= s@.len(),
    ensures
        r matches Ok((e, t)) ==> spec_prompt_value(s@, pos as int) == Some((e as int, t@)),
        r is Err ==> spec_prompt_value(s@, pos as int) is None,
        r matches Ok((e, _)) ==> pos < e <= s@.len(),
        r matches Err(err) ==> err.kind is Mismatch,
{
    let st = ws_comment(s, pos);
    if st < s.len() && s[st] == '"' {
        let a = st + 1;
        let mut b = a;
        loop
            invariant
                a <= b <= s@.len(),
                prompt_run_end(s@, b as int) == prompt_run_end(s@, a as int),
            ensures
                a <= b <= s@.len(),
                prompt_run_end(s@, a as int) == b,
            decreases s@.len() - b,
        {
            if b < s.len() && prompt_char(s[b]) {
                b += 1;
            } else if s.len() - b > 1 && s[b] == '\\' && s[b + 1] == '"' {
                b += 2;
            } else {
                break;
            }
        }
        if b > a && b < s.len() && s[b] == '"' {
            return Ok((b + 1, trimmed(s, a, b)));
        }
    }
    if st < s.len() && s[st] == '\'' {
        let close = find_char(s, st + 1, '\'');
        if close < s.len() {
            return Ok((close + 1, trimmed(s, st + 1, close)));
        }
    }
    let eol = find_line_end(s, pos);
    let t = trimmed(s, pos, eol);
    if t.as_str().unicode_len() == 0 {
        return mismatch(pos);
    }
    if eol < s.len() {
        Ok((eol + 1, t))
    } else if eol > pos {
        Ok((eol, t))
    } else {
        mismatch(pos)
    }
}

/// `prompt "text" [if expr]`.
pub open spec fn spec_prompt(s: Seq<char>, pos: int) -> Option<(int, Seq<char>, Option<OrV>)> {
    match keyword_at(s, pos, "prompt"@) {
        Some(k) => match spec_prompt_value(s, k) {
            Some((p, text)) => Some((if_tail(s, p).0, text, if_tail(s, p).1)),
            None => None,
        },
        None => None,
    }
}

/// `depends [on] expr`, with blanks of any kind between the words.
pub open spec fn spec_depends_on(s: Seq<char>, pos: int) -> Option<(int, OrV)> {
    if has_tag(s, pos, "depends"@) {
        let p = wsi_end(s, pos + "depends"@.len());
        let p2 = if has_tag(s, p, "on"@) {
            p + "on"@.len()
        } else {
            p
        };
        spec_or(s, wsi_end(s, p2))
    } else {
        None
    }
}

/// A bareword symbol after the blanks at `pos`, as text.
pub open spec fn spec_bareword(s: Seq<char>, pos: int) -> Option<(int, Seq<char>)> {
    if bareword_end(s, pos) > ws_comment_end(s, pos) {
        Some((bareword_end(s, pos), s.subrange(ws_comment_end(s, pos), bareword_end(s, pos))))
    } else {
        None
    }
}

/// `select SYMBOL [if expr]`, or `enable SYMBOL [if expr]`.
pub open spec fn spec_select(s: Seq<char>, pos: int) -> Option<(int, Seq<char>, Option<OrV>)> {
    let k = if keyword_at(s, pos, "select"@) is Some {
        keyword_at(s, pos, "select"@)
    } else {
        keyword_at(s, pos, "enable"@)
    };
    match k {
        Some(k) => match spec_bareword(s, k) {
            Some((p, name)) => Some((if_tail(s, p).0, name, if_tail(s, p).1)),
            None => None,
        },
        None => None,
    }
}

/// `keyword expr [if expr]`, the expression after blanks and comments.
pub open spec fn spec_keyword_expression(s: Seq<char>, pos: int, k: Seq<char>) -> Option<(int, OrV, Option<OrV>)> {
    match keyword_at(s, pos, k) {
        Some(k) => match spec_or(s, ws_comment_end(s, k)) {
            Some((p, x)) => Some((if_tail(s, p).0, x, if_tail(s, p).1)),
            None => None,
        },
        None => None,
    }
}

/// `def_tristate expr [if expr]`, with spaces, tabs or escaped line breaks around the keyword.
pub open spec fn spec_def_tristate(s: Seq<char>, pos: int) -> Option<(int, OrV, Option<OrV>)> {
    let st = wsi_end(s, pos);
    if has_tag(s, st, "def_tristate"@) {
        match spec_or(s, wsi_end(s, st + "def_tristate"@.len())) {
            Some((p, x)) => Some((if_tail(s, p).0, x, if_tail(s, p).1)),
            None => None,
        }
    } else {
        None
    }
}

/// `requires expr`.
pub open spec fn spec_requires(s: Seq<char>, pos: int) -> Option<(int, OrV)> {
    match keyword_at(s, pos, "requires"@) {
        Some(k) => spec_or(s, ws_comment_end(s, k)),
        None => None,
    }
}

/// Two bounds: two numbers, written back in decimal, or else two symbols.
pub open spec fn spec_bounds(s: Seq<char>, pos: int) -> Option<(int, SymbolV, SymbolV)> {
    let a = ws_comment_end(s, pos);
    let b = ws_comment_end(s, number_end(s, a));
    if number_at(s, a) && number_at(s, b) && number_end(s, b) > pos {
        Some((
            number_end(s, b),
            SymbolV::NonConstant(decimal_text(number_value(s, a))),
            SymbolV::NonConstant(decimal_text(number_value(s, b))),
        ))
    } else {
        match spec_symbol(s, pos) {
            Some((p, l)) => match spec_symbol(s, p) {
                Some((e, u)) => Some((e, l, u)),
                None => None,
            },
            None => None,
        }
    }
}

/// `range lower upper [if expr]`.
pub open spec fn spec_range(s: Seq<char>, pos: int) -> Option<(int, SymbolV, SymbolV, Option<OrV>)> {
    match keyword_at(s, pos, "range"@) {
        Some(k) => match spec_bounds(s, k) {
            Some((p, l, u)) => Some((if_tail(s, p).0, l, u, if_tail(s, p).1)),
            None => None,
        },
        None => None,
    }
}

/// `imply SYMBOL [if expr]`.
pub open spec fn spec_imply(s: Seq<char>, pos: int) -> Option<(int, SymbolV, Option<OrV>)> {
    match keyword_at(s, pos, "imply"@) {
        Some(k) => match spec_symbol(s, k) {
            Some((p, sym)) => Some((if_tail(s, p).0, sym, if_tail(s, p).1)),
            None => None,
        },
        None => None,
    }
}

/// `visible [if expr]`.
pub open spec fn spec_visible(s: Seq<char>, pos: int) -> Option<(int, Option<OrV>)> {
    match keyword_at(s, pos, "visible"@) {
        Some(k) => Some(if_tail(s, k)),
        None => None,
    }
}

/// The value of an `option`.
pub open spec fn spec_option_value(s: Seq<char>, pos: int) -> Option<(int, OptionV)> {
    if keyword_at(s, pos, "defconfig_list"@) is Some {
        Some((keyword_at(s, pos, "defconfig_list"@)->0, OptionV::DefconfigList))
    } else if keyword_at(s, pos, "modules"@) is Some {
        Some((keyword_at(s, pos, "modules"@)->0, OptionV::Modules))
    } else if keyword_at(s, pos, "allnoconfig_y"@) is Some {
        Some((keyword_at(s, pos, "allnoconfig_y"@)->0, OptionV::AllNoConfigY))
    } else {
        match keyword_at(s, pos, "env"@) {
            Some(k) => match keyword_at(s, k, "="@) {
                Some(eq) => if 0 <= eq < s.len() && s[eq] == '"' {
                    match spec_bareword(s, eq + 1) {
                        Some((p, name)) => if 0 <= p < s.len() && s[p] == '"' {
                            Some((p + 1, OptionV::Env(name)))
                        } else {
                            None
                        },
                        None => None,
                    }
                } else {
                    None
                },
                None => None,
            },
            None => None,
        }
    }
}

/// `option value`.
pub open spec fn spec_option(s: Seq<char>, pos: int) -> Option<(int, OptionV)> {
    match keyword_at(s, pos, "option"@) {
        Some(k) => spec_option_value(s, k),
        None => None,
    }
}

/// The type keyword after the blanks at `pos`, and where it ends: 0 bool, 1 hex, 2 int, 3 string, 4 tristate, 5 none.
pub open spec fn type_keyword(s: Seq<char>, st: int) -> (int, int) {
    if has_tag(s, st, "boolean"@) {
        (0, st + "boolean"@.len())
    } else if has_tag(s, st, "bool"@) {
        (0, st + "bool"@.len())
    } else if has_tag(s, st, "hex"@) {
        (1, st + "hex"@.len())
    } else if has_tag(s, st, "int"@) {
        (2, st + "int"@.len())
    } else if has_tag(s, st, "string"@) {
        (3, st + "string"@.len())
    } else if has_tag(s, st, "tristate"@) {
        (4, st + "tristate"@.len())
    } else {
        (5, st)
    }
}

/// A type declaration; see [`parse_type`].
pub open spec fn spec_type(s: Seq<char>, pos: int) -> Option<(int, TypeV, Option<OrV>)> {
    let st = ws_comment_end(s, pos);
    let (kind, after) = type_keyword(s, st);
    let head = if kind < 5 {
        match spec_prompt_value(s, after) {
            Some((e, prompt)) => Some((e, typed_v(kind, Some(prompt)))),
            None => Some((after, typed_v(kind, None))),
        }
    } else if has_tag(s, st, "def_bool"@) {
        match spec_or(s, ws_comment_end(s, st + "def_bool"@.len())) {
            Some((e, x)) => Some((e, TypeV::DefBool(x))),
            None => None,
        }
    } else if has_tag(s, st, "def_tristate"@) {
        match spec_or(s, ws_comment_end(s, st + "def_tristate"@.len())) {
            Some((e, x)) => Some((e, TypeV::DefTristate(x))),
            None => None,
        }
    } else {
        None
    };
    match head {
        Some((p, ty)) => Some((if_tail(s, p).0, ty, if_tail(s, p).1)),
        None => None,
    }
}

/// Reads `prompt "text" [if expr]`.
pub fn parse_prompt(s: &[char], pos: usize) -> (r: PResult<Prompt>)
    requires
        pos <= s@.len(),
    ensures
        r matches Ok((e, p)) ==> spec_prompt(s@, pos as int) == Some((e as int, p.prompt@, opt_view(p.condition))),
        r is Err ==> spec_prompt(s@, pos as int) is None,
        r matches Ok((e, p)) ==> pos < e <= s@.len() && (p.condition matches Some(c) ==> or_wf(c)),
        r matches Err(err) ==> err.kind is Mismatch,
{
    let k = match keyword(s, pos, "prompt") {
        Some(k) => k,
        None => return mismatch(pos),
    };
    let (p, prompt) = match parse_prompt_value(s, k) {
        Ok(x) => x,
        Err(err) => return Err(err),
    };
    let (e, condition) = parse_if_attribute(s, p);
    Ok((e, Prompt { prompt, condition }))
}

/// Reads `depends on expr`; the `on` may be missing, and blanks of any kind may stand between the words.
pub fn parse_depends_on(s: &[char], pos: usize) -> (r: PResult<Attribute>)
    requires
        pos <= s@.len(),
    ensures
        r matches Ok((e, Attribute::DependsOn(x))) ==> spec_depends_on(s@, pos as int) == Some((e as int, or_view(x))),
        r is Err ==> spec_depends_on(s@, pos as int) is None,
        r matches Ok((e, a)) ==> pos < e <= s@.len() && (a matches Attribute::DependsOn(x) && or_wf(
            x,
        )),
        r matches Err(err) ==> err.kind is Mismatch,
{
    let k = match tag(s, pos, "depends") {
        Some(k) => k,
        None => return mismatch(pos),
    };
    let mut p = wsi(s, k);
    if let Some(e) = tag(s, p, "on") {
        p = e;
    }
    match parse_expression(s, wsi(s, p)) {
        Ok((e, x)) => Ok((e, Attribute::DependsOn(x))),
        Err(err) => Err(err),
    }
}

/// Reads `select SYMBOL [if expr]`, or its older spelling `enable`.
pub fn parse_select(s: &[char], pos: usize) -> (r: PResult<Select>)
    requires
        pos <= s@.len(),
    ensures
        r matches Ok((e, x)) ==> spec_select(s@, pos as int) == Some((e as int, x.symbol@, opt_view(x.condition))),
        r is Err ==> spec_select(s@, pos as int) is None,
        r matches Ok((e, _)) ==> pos < e <= s@.len(),
        r matches Err(err) ==> err.kind is Mismatch,
{
    let k = match keyword(s, pos, "select") {
        Some(k) => k,
        None => match keyword(s, pos, "enable") {
            Some(k) => k,
            None => return mismatch(pos),
        },
    };
    let (p, symbol) = match parse_constant_symbol(s, k) {
        Ok(x) => x,
        Err(err) => return Err(err),
    };
    let (e, condition) = parse_if_attribute(s, p);
    Ok((e, Select { symbol, condition }))
}

/// Reads `enable SYMBOL`, an old spelling of `select`.
pub fn parse_enable(s: &[char], pos: usize) -> (r: PResult<String>)
    requires
        pos <= s@.len(),
    ensures
        r matches Ok((e, x)) ==> keyword_at(s@, pos as int, "enable"@) is Some && spec_bareword(s@, keyword_at(s@, pos as int, "enable"@)->0) == Some((e as int, x@)),
        r is Err ==> keyword_at(s@, pos as int, "enable"@) is None || spec_bareword(s@, keyword_at(s@, pos as int, "enable"@)->0) is None,
        r matches Ok((e, _)) ==> pos < e <= s@.len(),
        r matches Err(err) ==> err.kind is Mismatch,
{
    let k = match keyword(s, pos, "enable") {
        Some(k) => k,
        None => return mismatch(pos),
    };
    parse_constant_symbol(s, k)
}

/// Reads `default expr [if expr]`.
pub fn parse_default(s: &[char], pos: usize) -> (r: PResult<DefaultAttribute>)
    requires
        pos <= s@.len(),
    ensures
        r matches Ok((e, d)) ==> spec_keyword_expression(s@, pos as int, "default"@) == Some((e as int, or_view(d.expression), opt_view(d.condition))),
        r is Err ==> spec_keyword_expression(s@, pos as int, "default"@) is None,
        r matches Ok((e, d)) ==> pos < e <= s@.len() && or_wf(d.expression),
        r matches Err(err) ==> err.kind is Mismatch,
{
    let k = match keyword(s, pos, "default") {
        Some(k) => k,
        None => return mismatch(pos),
    };
    let (p, expression) = match parse_expression(s, ws_comment(s, k)) {
        Ok(x) => x,
        Err(err) => return Err(err),
    };
    let (e, condition) = parse_if_attribute(s, p);
    Ok((e, DefaultAttribute { expression, condition }))
}

/// Reads `def_bool expr [if expr]`.
pub fn parse_def_bool(s: &[char], pos: usize) -> (r: PResult<DefBool>)
    requires
        pos <= s@.len(),
    ensures
        r matches Ok((e, d)) ==> spec_keyword_expression(s@, pos as int, "def_bool"@) == Some((e as int, or_view(d.expression), opt_view(d.condition))),
        r is Err ==> spec_keyword_expression(s@, pos as int, "def_bool"@) is None,
        r matches Ok((e, d)) ==> pos < e <= s@.len() && or_wf(d.expression),
        r matches Err(err) ==> err.kind is Mismatch,
{
    let k = match keyword(s, pos, "def_bool") {
        Some(k) => k,
        None => return mismatch(pos),
    };
    let (p, expression) = match parse_expression(s, ws_comment(s, k)) {
        Ok(x) => x,
        Err(err) => return Err(err),
    };
    let (e, condition) = parse_if_attribute(s, p);
    Ok((e, DefBool { expression, condition }))
}

/// Reads `def_tristate expr [if expr]`.
pub fn parse_def_tristate(s: &[char], pos: usize) -> (r: PResult<DefTristate>)
    requires
        pos <= s@.len(),
    ensures
        r matches Ok((e, d)) ==> spec_def_tristate(s@, pos as int) == Some((e as int, or_view(d.expression), opt_view(d.condition))),
        r is Err ==> spec_def_tristate(s@, pos as int) is None,
        r matches Ok((e, d)) ==> pos < e <= s@.len() && or_wf(d.expression),
        r matches Err(err) ==> err.kind is Mismatch,
{
    let st = wsi(s, pos);
    let k = match tag(s, st, "def_tristate") {
        Some(k) => k,
        None => return mismatch(pos),
    };
    let (p, expression) = match parse_expression(s, wsi(s, k)) {
        Ok(x) => x,
        Err(err) => return Err(err),
    };
    let (e, condition) = parse_if_attribute(s, p);
    Ok((e, DefTristate { expression, condition }))
}

/// Reads `requires expr`.
pub fn parse_requires(s: &[char], pos: usize) -> (r: PResult<Expression>)
    requires
        pos <= s@.len(),
    ensures
        r matches Ok((e, x)) ==> spec_requires(s@, pos as int) == Some((e as int, or_view(x))),
        r is Err ==> spec_requires(s@, pos as int) is None,
        r matches Ok((e, x)) ==> pos < e <= s@.len() && or_wf(x),
        r matches Err(err) ==> err.kind is Mismatch,
{
    let k = match keyword(s, pos, "requires") {
        Some(k) => k,
        None => return mismatch(pos),
    };
    parse_expression(s, ws_comment(s, k))
}

/// Reads the keyword `k` alone, after blanks and comments.
fn parse_flag(s: &[char], pos: usize, k: &str) -> (r: PResult<()>)
    requires
        pos <= s@.len(),
    ensures
        r is Ok <==> has_tag(s@, ws_comment_end(s@, pos as int), k@),
        r matches Ok((e, _)) ==> e == ws_comment_end(s@, pos as int) + k@.len() && pos <= e
            <= s@.len(),
        r matches Err(err) ==> err.kind is Mismatch,
{
    match keyword(s, pos, k) {
        Some(e) => Ok((e, ())),
        None => mismatch(pos),
    }
}

/// Reads `modules`.
pub fn parse_modules(s: &[char], pos: usize) -> (r: PResult<()>)
    requires
        pos <= s@.len(),
    ensures
        r is Ok <==> has_tag(s@, ws_comment_end(s@, pos as int), "modules"@),
        r matches Ok((e, _)) ==> e == ws_comment_end(s@, pos as int) + "modules"@.len() && pos <= e
            <= s@.len(),
        r matches Err(err) ==> err.kind is Mismatch,
{
    parse_flag(s, pos, "modules")
}

/// Reads `optional`.
pub fn parse_optional(s: &[char], pos: usize) -> (r: PResult<()>)
    requires
        pos <= s@.len(),
    ensures
        r is Ok <==> has_tag(s@, ws_comment_end(s@, pos as int), "optional"@),
        r matches Ok((e, _)) ==> e == ws_comment_end(s@, pos as int) + "optional"@.len() && pos <= e
            <= s@.len(),
        r matches Err(err) ==> err.kind is Mismatch,
{
    parse_flag(s, pos, "optional")
}

/// Reads `transitional`.
pub fn parse_transitional(s: &[char], pos: usize) -> (r: PResult<()>)
    requires
        pos <= s@.len(),
    ensures
        r is Ok <==> has_tag(s@, ws_comment_end(s@, pos as int), "transitional"@),
        r matches Ok((e, _)) ==> e == ws_comment_end(s@, pos as int) + "transitional"@.len() && pos <= e
            <= s@.len(),
        r matches Err(err) ==> err.kind is Mismatch,
{
    parse_flag(s, pos, "transitional")
}

/// Reads the two bounds of a range: two numbers, or else two symbols.
fn parse_bounds(s: &[char], pos: usize) -> (r: PResult<(Symbol, Symbol)>)
    requires
        pos <= s@.len(),
    ensures
        r matches Ok((e, (l, u))) ==> spec_bounds(s@, pos as int) == Some((e as int, symbol_view(l), symbol_view(u))),
        r is Err ==> spec_bounds(s@, pos as int) is None,
        r matches Ok((e, _)) ==> pos < e <= s@.len(),
        r matches Err(err) ==> err.kind is Mismatch,
{
    let a = ws_comment(s, pos);
    if let Ok((ae, lower)) = parse_number(s, a) {
        let b = ws_comment(s, ae);
        if let Ok((be, upper)) = parse_number(s, b) {
            if be > pos {
                let l = crate::number::decimal(lower);
                let u = crate::number::decimal(upper);
                return Ok((be, (Symbol::NonConstant(l), Symbol::NonConstant(u))));
            }
        }
    }
    let (p, lower) = match parse_symbol(s, pos) {
        Ok(x) => x,
        Err(err) => return Err(err),
    };
    match parse_symbol(s, p) {
        Ok((e, upper)) => Ok((e, (lower, upper))),
        Err(err) => Err(err),
    }
}

/// Reads `range lower upper [if expr]`.
pub fn parse_range(s: &[char], pos: usize) -> (r: PResult<Range>)
    requires
        pos <= s@.len(),
    ensures
        r matches Ok((e, x)) ==> spec_range(s@, pos as int) == Some((e as int, symbol_view(x.lower_bound), symbol_view(x.upper_bound), opt_view(x.condition))),
        r is Err ==> spec_range(s@, pos as int) is None,
        r matches Ok((e, _)) ==> pos < e <= s@.len(),
        r matches Err(err) ==> err.kind is Mismatch,
{
    let k = match keyword(s, pos, "range") {
        Some(k) => k,
        None => return mismatch(pos),
    };
    let (p, (lower_bound, upper_bound)) = match parse_bounds(s, k) {
        Ok(x) => x,
        Err(err) => return Err(err),
    };
    let (e, condition) = parse_if_attribute(s, p);
    Ok((e, Range { lower_bound, upper_bound, condition }))
}

/// Reads `imply SYMBOL [if expr]`.
pub fn parse_imply(s: &[char], pos: usize) -> (r: PResult<Imply>)
    requires
        pos <= s@.len(),
    ensures
        r matches Ok((e, x)) ==> spec_imply(s@, pos as int) == Some((e as int, symbol_view(x.symbol), opt_view(x.condition))),
        r is Err ==> spec_imply(s@, pos as int) is None,
        r matches Ok((e, _)) ==> pos < e <= s@.len(),
        r matches Err(err) ==> err.kind is Mismatch,
{
    let k = match keyword(s, pos, "imply") {
        Some(k) => k,
        None => return mismatch(pos),
    };
    let (p, symbol) = match parse_symbol(s, k) {
        Ok(x) => x,
        Err(err) => return Err(err),
    };
    let (e, condition) = parse_if_attribute(s, p);
    Ok((e, Imply { symbol, condition }))
}

/// Reads `visible [if expr]`.
pub fn parse_visible(s: &[char], pos: usize) -> (r: PResult<Option<Expression>>)
    requires
        pos <= s@.len(),
    ensures
        r matches Ok((e, x)) ==> spec_visible(s@, pos as int) == Some((e as int, opt_view(x))),
        r is Err ==> spec_visible(s@, pos as int) is None,
        r matches Ok((e, _)) ==> pos <= e <= s@.len(),
        r matches Err(err) ==> err.kind is Mismatch,
{
    let k = match keyword(s, pos, "visible") {
        Some(k) => k,
        None => return mismatch(pos),
    };
    let (e, condition) = parse_if_attribute(s, k);
    Ok((e, condition))
}

/// Reads the value of an `option`.
pub fn parse_option_value(s: &[char], pos: usize) -> (r: PResult<OptionValues>)
    requires
        pos <= s@.len(),
    ensures
        r matches Ok((e, x)) ==> spec_option_value(s@, pos as int) == Some((e as int, option_view(x))),
        r is Err ==> spec_option_value(s@, pos as int) is None,
        r matches Ok((e, _)) ==> pos <= e <= s@.len(),
        r matches Err(err) ==> err.kind is Mismatch,
{
    if let Some(e) = keyword(s, pos, "defconfig_list") {
        return Ok((e, OptionValues::DefconfigList));
    }
    if let Some(e) = keyword(s, pos, "modules") {
        return Ok((e, OptionValues::Modules));
    }
    if let Some(e) = keyword(s, pos, "allnoconfig_y") {
        return Ok((e, OptionValues::AllNoConfigY));
    }
    let k = match keyword(s, pos, "env") {
        Some(k) => k,
        None => return mismatch(pos),
    };
    let eq = match keyword(s, k, "=") {
        Some(e) => e,
        None => return mismatch(pos),
    };
    if !(eq < s.len() && s[eq] == '"') {
        return mismatch(pos);
    }
    let (p, name) = match parse_constant_symbol(s, eq + 1) {
        Ok(x) => x,
        Err(err) => return Err(err),
    };
    if p < s.len() && s[p] == '"' {
        Ok((p + 1, OptionValues::Env(name)))
    } else {
        mismatch(pos)
    }
}

/// Reads `option value`.
pub fn parse_option(s: &[char], pos: usize) -> (r: PResult<OptionValues>)
    requires
        pos <= s@.len(),
    ensures
        r matches Ok((e, x)) ==> spec_option(s@, pos as int) == Some((e as int, option_view(x))),
        r is Err ==> spec_option(s@, pos as int) is None,
        r matches Ok((e, _)) ==> pos <= e <= s@.len(),
        r matches Err(err) ==> err.kind is Mismatch,
{
    let k = match keyword(s, pos, "option") {
        Some(k) => k,
        None => return mismatch(pos),
    };
    parse_option_value(s, k)
}

/// The kind of type that a type keyword names: 0 bool, 1 hex, 2 int, 3 string, 4 tristate.
fn typed(kind: u8, prompt: Option<String>) -> (r: Type)
    ensures
        type_view(r) == typed_v(kind as int, opt_text(prompt)),
{
    if kind == 0 {
        Type::Bool(prompt)
    } else if kind == 1 {
        Type::Hex(prompt)
    } else if kind == 2 {
        Type::Int(prompt)
    } else if kind == 3 {
        Type::String(prompt)
    } else {
        Type::Tristate(prompt)
    }
}

/// Reads a type declaration: `bool`, `boolean`, `hex`, `int`, `string` or
/// `tristate`, each with an optional prompt, or `def_bool expr` or
/// `def_tristate expr`; then an optional `if expr`.
pub fn parse_type(s: &[char], pos: usize) -> (r: PResult<Attribute>)
    requires
        pos <= s@.len(),
    ensures
        r matches Ok((e, Attribute::Type(ct))) ==> spec_type(s@, pos as int) == Some((e as int, type_view(ct.kind), opt_view(ct.condition))),
        r is Err ==> spec_type(s@, pos as int) is None,
        r matches Ok((e, a)) ==> pos <= e <= s@.len() && a is Type,
        r matches Err(err) ==> err.kind is Mismatch,
{
    let st = ws_comment(s, pos);
    let mut kind: u8 = 5;
    let mut after = st;
    if let Some(e) = tag(s, st, "boolean") {
        kind = 0;
        after = e;
    } else if let Some(e) = tag(s, st, "bool") {
        kind = 0;
        after = e;
    } else if let Some(e) = tag(s, st, "hex") {
        kind = 1;
        after = e;
    } else if let Some(e) = tag(s, st, "int") {
        kind = 2;
        after = e;
    } else if let Some(e) = tag(s, st, "string") {
        kind = 3;
        after = e;
    } else if let Some(e) = tag(s, st, "tristate") {
        kind = 4;
        after = e;
    }
    let (p, t) = if kind < 5 {
        match parse_prompt_value(s, after) {
            Ok((e, prompt)) => (e, typed(kind, Some(prompt))),
            Err(_) => (after, typed(kind, None)),
        }
    } else if let Some(e) = tag(s, st, "def_bool") {
        match parse_expression(s, ws_comment(s, e)) {
            Ok((e, x)) => (e, Type::DefBool(x)),
            Err(err) => return Err(err),
        }
    } else if let Some(e) = tag(s, st, "def_tristate") {
        match parse_expression(s, ws_comment(s, e)) {
            Ok((e, x)) => (e, Type::DefTristate(x)),
            Err(err) => return Err(err),
        }
    } else {
        return mismatch(pos);
    };
    let (e, condition) = parse_if_attribute(s, p);
    Ok((e, Attribute::Type(ConfigType { kind: t, condition })))
}

/// The value of an attribute.
pub enum AttributeV {
    Help(Seq<char>),
    Prompt(Seq<char>, Option<OrV>),
    Modules,
    Select(Seq<char>, Option<OrV>),
    DependsOn(OrV),
    Optional,
    Range(SymbolV, SymbolV, Option<OrV>),
    Visible(Option<OrV>),
    Default(OrV, Option<OrV>),
    Imply(SymbolV, Option<OrV>),
    Requires(OrV),
    Type(TypeV, Option<OrV>),
    Option(OptionV),
    Transitional,
}

pub open spec fn attribute_view(a: Attribute) -> AttributeV {
    match a {
        Attribute::Help(t) => AttributeV::Help(t@),
        Attribute::Prompt(p) => AttributeV::Prompt(p.prompt@, opt_view(p.condition)),
        Attribute::Modules => AttributeV::Modules,
        Attribute::Select(x) => AttributeV::Select(x.symbol@, opt_view(x.condition)),
        Attribute::DependsOn(x) => AttributeV::DependsOn(or_view(x)),
        Attribute::Optional => AttributeV::Optional,
        Attribute::Range(x) => AttributeV::Range(
            symbol_view(x.lower_bound),
            symbol_view(x.upper_bound),
            opt_view(x.condition),
        ),
        Attribute::Visible(x) => AttributeV::Visible(opt_view(x)),
        Attribute::Default(d) => AttributeV::Default(or_view(d.expression), opt_view(d.condition)),
        Attribute::Imply(x) => AttributeV::Imply(symbol_view(x.symbol), opt_view(x.condition)),
        Attribute::Requires(x) => AttributeV::Requires(or_view(x)),
        Attribute::Type(c) => AttributeV::Type(type_view(c.kind), opt_view(c.condition)),
        Attribute::Option(o) => AttributeV::Option(option_view(o)),
        Attribute::Transitional => AttributeV::Transitional,
    }
}

pub open spec fn attributes_view(v: Seq<Attribute>) -> Seq<AttributeV> {
    v.map_values(|a: Attribute| attribute_view(a))
}

/// One attribute after the blanks and comments at `pos`; see [`parse_attribute`].
pub open spec fn spec_attribute(s: Seq<char>, pos: int) -> Option<(int, AttributeV)> {
    let st = ws_comment_end(s, pos);
    if spec_prompt(s, st) is Some {
        let (e, t, c) = spec_prompt(s, st)->0;
        Some((e, AttributeV::Prompt(t, c)))
    } else if spec_help_keyword(s, st) is Some {
        let (e, t) = spec_help_text(s, spec_help_keyword(s, st)->0);
        Some((e, AttributeV::Help(t)))
    } else if spec_depends_on(s, st) is Some {
        let (e, x) = spec_depends_on(s, st)->0;
        Some((e, AttributeV::DependsOn(x)))
    } else if spec_select(s, st) is Some {
        let (e, t, c) = spec_select(s, st)->0;
        Some((e, AttributeV::Select(t, c)))
    } else if spec_keyword_expression(s, st, "default"@) is Some {
        let (e, x, c) = spec_keyword_expression(s, st, "default"@)->0;
        Some((e, AttributeV::Default(x, c)))
    } else if spec_requires(s, st) is Some {
        let (e, x) = spec_requires(s, st)->0;
        Some((e, AttributeV::Requires(x)))
    } else if keyword_at(s, st, "modules"@) is Some {
        Some((keyword_at(s, st, "modules"@)->0, AttributeV::Modules))
    } else if spec_range(s, st) is Some {
        let (e, l, u, c) = spec_range(s, st)->0;
        Some((e, AttributeV::Range(l, u, c)))
    } else if spec_imply(s, st) is Some {
        let (e, x, c) = spec_imply(s, st)->0;
        Some((e, AttributeV::Imply(x, c)))
    } else if spec_visible(s, st) is Some {
        let (e, c) = spec_visible(s, st)->0;
        Some((e, AttributeV::Visible(c)))
    } else if spec_option(s, st) is Some {
        let (e, o) = spec_option(s, st)->0;
        Some((e, AttributeV::Option(o)))
    } else if keyword_at(s, st, "transitional"@) is Some {
        Some((keyword_at(s, st, "transitional"@)->0, AttributeV::Transitional))
    } else {
        None
    }
}

/// Attributes from `pos` on, for as long as one follows and reads something.
pub open spec fn attributes_from(s: Seq<char>, pos: int) -> (int, Seq<AttributeV>)
    decreases s.len() - pos,
{
    match spec_attribute(s, pos) {
        Some((e, a)) => if pos < e <= s.len() {
            let (e2, rest) = attributes_from(s, e);
            (e2, seq![a] + rest)
        } else {
            (pos, Seq::empty())
        },
        None => (pos, Seq::empty()),
    }
}

proof fn lemma_attributes_view_push(v: Seq<Attribute>, a: Attribute)
    ensures
        attributes_view(v.push(a)) == attributes_view(v).push(attribute_view(a)),
{
    assert(attributes_view(v.push(a)) =~= attributes_view(v).push(attribute_view(a)));
}

/// Reads one attribute, after blanks and comments. The alternatives are tried
/// in this order: prompt, help, depends on, select, default, requires, modules,
/// range, imply, visible, option, transitional.
#[verifier::rlimit(40)]
pub fn parse_attribute(s: &[char], pos: usize) -> (r: PResult<Attribute>)
    requires
        pos <= s@.len(),
        s@.len() * 8 <= usize::MAX,
    ensures
        r matches Ok((e, a)) ==> spec_attribute(s@, pos as int) == Some((e as int, attribute_view(a))),
        r is Err ==> spec_attribute(s@, pos as int) is None,
        r matches Ok((e, _)) ==> pos <= e <= s@.len(),
        r matches Err(err) ==> err.kind is Mismatch,
{
    let st = ws_comment(s, pos);
    if let Ok((e, p)) = parse_prompt(s, st) {
        return Ok((e, Attribute::Prompt(p)));
    }
    if let Ok((e, h)) = parse_help(s, st) {
        return Ok((e, Attribute::Help(h)));
    }
    if let Ok(r) = parse_depends_on(s, st) {
        return Ok(r);
    }
    if let Ok((e, x)) = parse_select(s, st) {
        return Ok((e, Attribute::Select(x)));
    }
    if let Ok((e, x)) = parse_default(s, st) {
        return Ok((e, Attribute::Default(x)));
    }
    if let Ok((e, x)) = parse_requires(s, st) {
        return Ok((e, Attribute::Requires(x)));
    }
    if let Ok((e, _)) = parse_modules(s, st) {
        return Ok((e, Attribute::Modules));
    }
    if let Ok((e, x)) = parse_range(s, st) {
        return Ok((e, Attribute::Range(x)));
    }
    if let Ok((e, x)) = parse_imply(s, st) {
        return Ok((e, Attribute::Imply(x)));
    }
    if let Ok((e, x)) = parse_visible(s, st) {
        return Ok((e, Attribute::Visible(x)));
    }
    if let Ok((e, x)) = parse_option(s, st) {
        return Ok((e, Attribute::Option(x)));
    }
    if let Ok((e, _)) = parse_transitional(s, st) {
        return Ok((e, Attribute::Transitional));
    }
    mismatch(pos)
}

/// Reads attributes for as long as there are some.
pub fn parse_attributes(s: &[char], pos: usize) -> (r: (usize, Vec<Attribute>))
    requires
        pos <= s@.len(),
        s@.len() * 8 <= usize::MAX,
    ensures
        (r.0 as int, attributes_view(r.1@)) == attributes_from(s@, ws_comment_end(s@, pos as int)),
        pos <= r.0 <= s@.len(),
{
    let mut p = ws_comment(s, pos);
    let ghost p0 = p;
    let mut v: Vec<Attribute> = Vec::new();
    assert(attributes_view(v@) =~= Seq::<AttributeV>::empty());
    loop
        invariant
            pos <= p0 <= p <= s@.len(),
            s@.len() * 8 <= usize::MAX,
            attributes_from(s@, p0 as int).0 == attributes_from(s@, p as int).0,
            attributes_from(s@, p0 as int).1 == attributes_view(v@) + attributes_from(s@, p as int).1,
        ensures
            pos <= p <= s@.len(),
            attributes_from(s@, p0 as int).0 == p,
            attributes_from(s@, p0 as int).1 == attributes_view(v@),
        decreases s@.len() - p,
    {
        match parse_attribute(s, p) {
            Ok((e, a)) => {
                if e <= p {
                    assert(attributes_view(v@) + Seq::<AttributeV>::empty() =~= attributes_view(v@));
                    break;
                }
                proof {
                    lemma_attributes_view_push(v@, a);
                    let rest = attributes_from(s@, e as int).1;
                    assert(attributes_view(v@) + (seq![attribute_view(a)] + rest) =~= attributes_view(v@).push(attribute_view(a)) + rest);
                }
                v.push(a);
                p = e;
            },
            Err(_) => {
                assert(attributes_view(v@) + Seq::<AttributeV>::empty() =~= attributes_view(v@));
                break;
            },
        }
    }
    (p, v)
}

} // verus!
