//! The textual form of symbols, expressions, calls and attributes.

use vstd::prelude::*;
use crate::attribute::{
    Attribute, ConfigType, DefaultAttribute, Imply, OptionValues, Prompt, Range, Select, Type,
};
use crate::expression::{AndExpression, Atom, CompareExpression, CompareOperator, OrExpression, Term};
use crate::function::{ExpressionToken, FunctionCall, Parameter};
use crate::number::{decimal, decimal_text};
use crate::symbol::Symbol;
use crate::text::{chars_of, string_of};
use crate::vars::push_all;

verus! {

/// A bareword stands as it is; a constant stands between double quotes.
pub open spec fn symbol_text(s: Symbol) -> Seq<char> {
    match s {
        Symbol::NonConstant(t) => t@,
        Symbol::Constant(t) => "\""@ + t@ + "\""@,
    }
}

pub open spec fn operator_text(o: CompareOperator) -> Seq<char> {
    match o {
        CompareOperator::GreaterThan => ">"@,
        CompareOperator::GreaterOrEqual => ">="@,
        CompareOperator::LowerThan => "<"@,
        CompareOperator::LowerOrEqual => "<="@,
        CompareOperator::Equal => "="@,
        CompareOperator::NotEqual => "!="@,
    }
}

pub open spec fn compare_text(c: CompareExpression) -> Seq<char> {
    symbol_text(c.left) + " "@ + operator_text(c.operator) + " "@ + symbol_text(c.right)
}

pub open spec fn atom_text(a: Atom) -> Seq<char>
    decreases a,
{
    match a {
        Atom::Symbol(s) => symbol_text(s),
        Atom::Number(n) => decimal_text(n as int),
        Atom::Compare(c) => compare_text(c),
        Atom::Function(f) => call_text(f),
        Atom::Parenthesis(e) => "("@ + or_text(*e) + ")"@,
        Atom::String(t) => "\""@ + t@ + "\""@,
    }
}

pub open spec fn term_text(t: Term) -> Seq<char>
    decreases t,
{
    match t {
        Term::Not(a) => "!"@ + atom_text(a),
        Term::Atom(a) => atom_text(a),
    }
}

/// The terms joined by ` && `.
pub open spec fn terms_text(ts: Seq<Term>) -> Seq<char>
    decreases ts,
{
    if ts.len() == 0 {
        Seq::empty()
    } else if ts.len() == 1 {
        term_text(ts[0])
    } else {
        terms_text(ts.subrange(0, ts.len() - 1)) + " && "@ + term_text(ts[ts.len() - 1])
    }
}

pub open spec fn and_text(e: AndExpression) -> Seq<char>
    decreases e,
{
    match e {
        AndExpression::Term(t) => term_text(t),
        AndExpression::Expression(v) => terms_text(v@),
    }
}

/// The `&&`-expressions joined by ` || `.
pub open spec fn ands_text(es: Seq<AndExpression>) -> Seq<char>
    decreases es,
{
    if es.len() == 0 {
        Seq::empty()
    } else if es.len() == 1 {
        and_text(es[0])
    } else {
        ands_text(es.subrange(0, es.len() - 1)) + " || "@ + and_text(es[es.len() - 1])
    }
}

pub open spec fn or_text(e: OrExpression) -> Seq<char>
    decreases e,
{
    match e {
        OrExpression::Term(a) => and_text(a),
        OrExpression::Expression(v) => ands_text(v@),
    }
}

pub open spec fn token_text(t: ExpressionToken) -> Seq<char>
    decreases t,
{
    match t {
        ExpressionToken::Literal(s) => s@,
        ExpressionToken::Variable(v) => "$"@ + v@,
        ExpressionToken::DoubleQuotes(v) => "\""@ + tokens_text(v@) + "\""@,
        ExpressionToken::SingleQuotes(s) => "'"@ + s@ + "'"@,
        ExpressionToken::Backtick(s) => "`"@ + s@ + "`"@,
        ExpressionToken::Function(f) => call_text(*f),
        ExpressionToken::Space => " "@,
    }
}

/// The tokens one after the other.
pub open spec fn tokens_text(ts: Seq<ExpressionToken>) -> Seq<char>
    decreases ts,
{
    if ts.len() == 0 {
        Seq::empty()
    } else {
        tokens_text(ts.subrange(0, ts.len() - 1)) + token_text(ts[ts.len() - 1])
    }
}

pub open spec fn parameter_text(p: Parameter) -> Seq<char>
    decreases p,
{
    tokens_text(p.tokens@)
}

/// The parameters joined by `, `.
pub open spec fn parameters_text(ps: Seq<Parameter>) -> Seq<char>
    decreases ps,
{
    if ps.len() == 0 {
        Seq::empty()
    } else if ps.len() == 1 {
        parameter_text(ps[0])
    } else {
        parameters_text(ps.subrange(0, ps.len() - 1)) + ", "@ + parameter_text(ps[ps.len() - 1])
    }
}

/// `$(name)` without parameters, `$(name, p1, p2)` with some.
pub open spec fn call_text(f: FunctionCall) -> Seq<char>
    decreases f,
{
    if f.parameters@.len() == 0 {
        "$("@ + f.name@ + ")"@
    } else {
        "$("@ + f.name@ + ", "@ + parameters_text(f.parameters@) + ")"@
    }
}

/// Appends `t` to `out`.
fn put(out: &mut Vec<char>, t: &str)
    ensures
        final(out)@ == old(out)@ + t@,
{
    let cs = chars_of(t);
    push_all(out, cs.as_slice());
}

/// Appends `t` to `out`.
fn put_string(out: &mut Vec<char>, t: &String)
    ensures
        final(out)@ == old(out)@ + t@,
{
    put(out, t.as_str());
}

/// The string of the characters of `out`.
fn finish(out: Vec<char>) -> (r: String)
    ensures
        r@ == out@,
{
    let n = out.len();
    proof {
        assert(out@.subrange(0, n as int) =~= out@);
    }
    string_of(out.as_slice(), 0, n)
}

pub fn write_symbol(s: &Symbol, out: &mut Vec<char>)
    ensures
        final(out)@ == old(out)@ + symbol_text(*s),
{
    match s {
        Symbol::NonConstant(t) => put_string(out, t),
        Symbol::Constant(t) => {
            put(out, "\"");
            put_string(out, t);
            put(out, "\"");
            assert(out@ =~= old(out)@ + symbol_text(*s));
        },
    }
}

pub fn write_operator(o: &CompareOperator, out: &mut Vec<char>)
    ensures
        final(out)@ == old(out)@ + operator_text(*o),
{
    match o {
        CompareOperator::GreaterThan => put(out, ">"),
        CompareOperator::GreaterOrEqual => put(out, ">="),
        CompareOperator::LowerThan => put(out, "<"),
        CompareOperator::LowerOrEqual => put(out, "<="),
        CompareOperator::Equal => put(out, "="),
        CompareOperator::NotEqual => put(out, "!="),
    }
}

pub fn write_compare(c: &CompareExpression, out: &mut Vec<char>)
    ensures
        final(out)@ == old(out)@ + compare_text(*c),
{
    write_symbol(&c.left, out);
    put(out, " ");
    write_operator(&c.operator, out);
    put(out, " ");
    write_symbol(&c.right, out);
    assert(out@ =~= old(out)@ + compare_text(*c));
}

pub fn write_atom(a: &Atom, out: &mut Vec<char>)
    ensures
        final(out)@ == old(out)@ + atom_text(*a),
    decreases a,
{
    match a {
        Atom::Symbol(s) => write_symbol(s, out),
        Atom::Number(n) => {
            let t = decimal(*n);
            put_string(out, &t);
        },
        Atom::Compare(c) => write_compare(c, out),
        Atom::Function(f) => write_call(f, out),
        Atom::Parenthesis(e) => {
            put(out, "(");
            write_or(e, out);
            put(out, ")");
            assert(out@ =~= old(out)@ + atom_text(*a));
        },
        Atom::String(t) => {
            put(out, "\"");
            put_string(out, t);
            put(out, "\"");
            assert(out@ =~= old(out)@ + atom_text(*a));
        },
    }
}

pub fn write_term(t: &Term, out: &mut Vec<char>)
    ensures
        final(out)@ == old(out)@ + term_text(*t),
    decreases t,
{
    match t {
        Term::Not(a) => {
            put(out, "!");
            write_atom(a, out);
            assert(out@ =~= old(out)@ + term_text(*t));
        },
        Term::Atom(a) => write_atom(a, out),
    }
}

pub fn write_terms(v: &Vec<Term>, out: &mut Vec<char>)
    ensures
        final(out)@ == old(out)@ + terms_text(v@),
    decreases v,
{
    let mut i: usize = 0;
    assert(v@.subrange(0, 0) =~= Seq::<Term>::empty());
    while i < v.len()
        invariant
            i <= v@.len(),
            out@ == old(out)@ + terms_text(v@.subrange(0, i as int)),
        decreases v@.len() - i,
    {
        if i > 0 {
            put(out, " && ");
        }
        write_term(&v[i], out);
        proof {
            let sub = v@.subrange(0, i + 1);
            assert(sub.subrange(0, i as int) =~= v@.subrange(0, i as int));
            assert(sub[i as int] == v@[i as int]);
            assert(out@ =~= old(out)@ + terms_text(sub));
        }
        i += 1;
    }
    assert(v@.subrange(0, v@.len() as int) =~= v@);
}

pub fn write_and(e: &AndExpression, out: &mut Vec<char>)
    ensures
        final(out)@ == old(out)@ + and_text(*e),
    decreases e,
{
    match e {
        AndExpression::Term(t) => write_term(t, out),
        AndExpression::Expression(v) => write_terms(v, out),
    }
}

pub fn write_ands(v: &Vec<AndExpression>, out: &mut Vec<char>)
    ensures
        final(out)@ == old(out)@ + ands_text(v@),
    decreases v,
{
    let mut i: usize = 0;
    assert(v@.subrange(0, 0) =~= Seq::<AndExpression>::empty());
    while i < v.len()
        invariant
            i <= v@.len(),
            out@ == old(out)@ + ands_text(v@.subrange(0, i as int)),
        decreases v@.len() - i,
    {
        if i > 0 {
            put(out, " || ");
        }
        write_and(&v[i], out);
        proof {
            let sub = v@.subrange(0, i + 1);
            assert(sub.subrange(0, i as int) =~= v@.subrange(0, i as int));
            assert(sub[i as int] == v@[i as int]);
            assert(out@ =~= old(out)@ + ands_text(sub));
        }
        i += 1;
    }
    assert(v@.subrange(0, v@.len() as int) =~= v@);
}

pub fn write_or(e: &OrExpression, out: &mut Vec<char>)
    ensures
        final(out)@ == old(out)@ + or_text(*e),
    decreases e,
{
    match e {
        OrExpression::Term(a) => write_and(a, out),
        OrExpression::Expression(v) => write_ands(v, out),
    }
}

pub fn write_token(t: &ExpressionToken, out: &mut Vec<char>)
    ensures
        final(out)@ == old(out)@ + token_text(*t),
    decreases t,
{
    match t {
        ExpressionToken::Literal(s) => put_string(out, s),
        ExpressionToken::Variable(v) => {
            put(out, "$");
            put_string(out, v);
            assert(out@ =~= old(out)@ + token_text(*t));
        },
        ExpressionToken::DoubleQuotes(v) => {
            put(out, "\"");
            write_tokens(v, out);
            put(out, "\"");
            assert(out@ =~= old(out)@ + token_text(*t));
        },
        ExpressionToken::SingleQuotes(s) => {
            put(out, "'");
            put_string(out, s);
            put(out, "'");
            assert(out@ =~= old(out)@ + token_text(*t));
        },
        ExpressionToken::Backtick(s) => {
            put(out, "`");
            put_string(out, s);
            put(out, "`");
            assert(out@ =~= old(out)@ + token_text(*t));
        },
        ExpressionToken::Function(f) => write_call(f, out),
        ExpressionToken::Space => put(out, " "),
    }
}

pub fn write_tokens(v: &Vec<ExpressionToken>, out: &mut Vec<char>)
    ensures
        final(out)@ == old(out)@ + tokens_text(v@),
    decreases v,
{
    let mut i: usize = 0;
    assert(v@.subrange(0, 0) =~= Seq::<ExpressionToken>::empty());
    while i < v.len()
        invariant
            i <= v@.len(),
            out@ == old(out)@ + tokens_text(v@.subrange(0, i as int)),
        decreases v@.len() - i,
    {
        write_token(&v[i], out);
        proof {
            let sub = v@.subrange(0, i + 1);
            assert(sub.subrange(0, i as int) =~= v@.subrange(0, i as int));
            assert(sub[i as int] == v@[i as int]);
            assert(out@ =~= old(out)@ + tokens_text(sub));
        }
        i += 1;
    }
    assert(v@.subrange(0, v@.len() as int) =~= v@);
}

pub fn write_parameters(v: &Vec<Parameter>, out: &mut Vec<char>)
    ensures
        final(out)@ == old(out)@ + parameters_text(v@),
    decreases v,
{
    let mut i: usize = 0;
    assert(v@.subrange(0, 0) =~= Seq::<Parameter>::empty());
    while i < v.len()
        invariant
            i <= v@.len(),
            out@ == old(out)@ + parameters_text(v@.subrange(0, i as int)),
        decreases v@.len() - i,
    {
        if i > 0 {
            put(out, ", ");
        }
        write_tokens(&v[i].tokens, out);
        proof {
            assert(parameter_text(v@[i as int]) == tokens_text(v@[i as int].tokens@));
            let sub = v@.subrange(0, i + 1);
            assert(sub.subrange(0, i as int) =~= v@.subrange(0, i as int));
            assert(sub[i as int] == v@[i as int]);
            assert(out@ =~= old(out)@ + parameters_text(sub));
        }
        i += 1;
    }
    assert(v@.subrange(0, v@.len() as int) =~= v@);
}

pub fn write_call(f: &FunctionCall, out: &mut Vec<char>)
    ensures
        final(out)@ == old(out)@ + call_text(*f),
    decreases f,
{
    put(out, "$(");
    put_string(out, &f.name);
    if f.parameters.len() == 0 {
        put(out, ")");
        assert(out@ =~= old(out)@ + call_text(*f));
        return;
    }
    put(out, ", ");
    write_parameters(&f.parameters, out);
    put(out, ")");
    assert(out@ =~= old(out)@ + call_text(*f));
}

/// ` if expr` for a condition, nothing for none.
pub open spec fn condition_text(c: Option<OrExpression>) -> Seq<char> {
    match c {
        None => Seq::empty(),
        Some(i) => " if "@ + or_text(i),
    }
}

pub open spec fn prompt_text(p: Prompt) -> Seq<char> {
    "\""@ + p.prompt@ + "\""@ + condition_text(p.condition)
}

pub open spec fn select_text(s: Select) -> Seq<char> {
    s.symbol@ + condition_text(s.condition)
}

pub open spec fn range_text(r: Range) -> Seq<char> {
    symbol_text(r.lower_bound) + " "@ + symbol_text(r.upper_bound) + condition_text(r.condition)
}

pub open spec fn default_text(d: DefaultAttribute) -> Seq<char> {
    or_text(d.expression) + condition_text(d.condition)
}

pub open spec fn imply_text(i: Imply) -> Seq<char> {
    symbol_text(i.symbol) + condition_text(i.condition)
}

pub open spec fn option_text(o: OptionValues) -> Seq<char> {
    match o {
        OptionValues::DefconfigList => "defconfig_list"@,
        OptionValues::Modules => "modules"@,
        OptionValues::AllNoConfigY => "allnoconfig_y"@,
        OptionValues::Env(s) => "env=\""@ + s@ + "\""@,
    }
}

/// A type keyword, with its prompt in double quotes where there is one.
pub open spec fn typed_text(keyword: Seq<char>, prompt: Option<String>) -> Seq<char> {
    match prompt {
        None => keyword,
        Some(p) => keyword + " \""@ + p@ + "\""@,
    }
}

pub open spec fn type_text(t: Type) -> Seq<char> {
    match t {
        Type::Bool(p) => typed_text("bool"@, p),
        Type::Tristate(p) => typed_text("tristate"@, p),
        Type::String(p) => typed_text("string"@, p),
        Type::Hex(p) => typed_text("hex"@, p),
        Type::Int(p) => typed_text("int"@, p),
        Type::DefBool(v) => "def_bool "@ + or_text(v),
        Type::DefTristate(v) => "def_tristate "@ + or_text(v),
    }
}

pub open spec fn config_type_text(c: ConfigType) -> Seq<char> {
    type_text(c.kind) + condition_text(c.condition)
}

pub open spec fn attribute_text(a: Attribute) -> Seq<char> {
    match a {
        Attribute::Help(s) => "help\n  "@ + s@,
        Attribute::Prompt(p) => "prompt "@ + prompt_text(p),
        Attribute::Modules => "modules"@,
        Attribute::Select(s) => "select "@ + select_text(s),
        Attribute::DependsOn(d) => "depends on "@ + or_text(d),
        Attribute::Optional => "optional"@,
        Attribute::Range(r) => "range "@ + range_text(r),
        Attribute::Visible(None) => "visible"@,
        Attribute::Visible(Some(e)) => "visible if "@ + or_text(e),
        Attribute::Default(d) => "default "@ + default_text(d),
        Attribute::Imply(i) => "imply "@ + imply_text(i),
        Attribute::Requires(r) => "requires "@ + or_text(r),
        Attribute::Type(t) => config_type_text(t),
        Attribute::Option(o) => "option "@ + option_text(o),
        Attribute::Transitional => "transitional"@,
    }
}

fn write_condition(c: &Option<OrExpression>, out: &mut Vec<char>)
    ensures
        final(out)@ == old(out)@ + condition_text(*c),
{
    match c {
        None => {
            assert(out@ =~= old(out)@ + condition_text(*c));
        },
        Some(i) => {
            put(out, " if ");
            write_or(i, out);
            assert(out@ =~= old(out)@ + condition_text(*c));
        },
    }
}

fn write_prompt(p: &Prompt, out: &mut Vec<char>)
    ensures
        final(out)@ == old(out)@ + prompt_text(*p),
{
    put(out, "\"");
    put_string(out, &p.prompt);
    put(out, "\"");
    write_condition(&p.condition, out);
    assert(out@ =~= old(out)@ + prompt_text(*p));
}

fn write_select(s: &Select, out: &mut Vec<char>)
    ensures
        final(out)@ == old(out)@ + select_text(*s),
{
    put_string(out, &s.symbol);
    write_condition(&s.condition, out);
    assert(out@ =~= old(out)@ + select_text(*s));
}

fn write_range(r: &Range, out: &mut Vec<char>)
    ensures
        final(out)@ == old(out)@ + range_text(*r),
{
    write_symbol(&r.lower_bound, out);
    put(out, " ");
    write_symbol(&r.upper_bound, out);
    write_condition(&r.condition, out);
    assert(out@ =~= old(out)@ + range_text(*r));
}

fn write_default(d: &DefaultAttribute, out: &mut Vec<char>)
    ensures
        final(out)@ == old(out)@ + default_text(*d),
{
    write_or(&d.expression, out);
    write_condition(&d.condition, out);
    assert(out@ =~= old(out)@ + default_text(*d));
}

fn write_imply(i: &Imply, out: &mut Vec<char>)
    ensures
        final(out)@ == old(out)@ + imply_text(*i),
{
    write_symbol(&i.symbol, out);
    write_condition(&i.condition, out);
    assert(out@ =~= old(out)@ + imply_text(*i));
}

fn write_option(o: &OptionValues, out: &mut Vec<char>)
    ensures
        final(out)@ == old(out)@ + option_text(*o),
{
    match o {
        OptionValues::DefconfigList => put(out, "defconfig_list"),
        OptionValues::Modules => put(out, "modules"),
        OptionValues::AllNoConfigY => put(out, "allnoconfig_y"),
        OptionValues::Env(s) => {
            put(out, "env=\"");
            put_string(out, s);
            put(out, "\"");
            assert(out@ =~= old(out)@ + option_text(*o));
        },
    }
}

/// Writes a type keyword, then its prompt in double quotes where there is one.
fn fmt_type(keyword: &str, prompt: &Option<String>, out: &mut Vec<char>)
    ensures
        final(out)@ == old(out)@ + typed_text(keyword@, *prompt),
{
    put(out, keyword);
    match prompt {
        None => {},
        Some(p) => {
            put(out, " \"");
            put_string(out, p);
            put(out, "\"");
            assert(out@ =~= old(out)@ + typed_text(keyword@, *prompt));
        },
    }
}

fn write_type(t: &Type, out: &mut Vec<char>)
    ensures
        final(out)@ == old(out)@ + type_text(*t),
{
    match t {
        Type::Bool(p) => fmt_type("bool", p, out),
        Type::Tristate(p) => fmt_type("tristate", p, out),
        Type::String(p) => fmt_type("string", p, out),
        Type::Hex(p) => fmt_type("hex", p, out),
        Type::Int(p) => fmt_type("int", p, out),
        Type::DefBool(v) => {
            put(out, "def_bool ");
            write_or(v, out);
            assert(out@ =~= old(out)@ + type_text(*t));
        },
        Type::DefTristate(v) => {
            put(out, "def_tristate ");
            write_or(v, out);
            assert(out@ =~= old(out)@ + type_text(*t));
        },
    }
}

fn write_config_type(c: &ConfigType, out: &mut Vec<char>)
    ensures
        final(out)@ == old(out)@ + config_type_text(*c),
{
    write_type(&c.kind, out);
    write_condition(&c.condition, out);
    assert(out@ =~= old(out)@ + config_type_text(*c));
}

fn write_attribute(a: &Attribute, out: &mut Vec<char>)
    ensures
        final(out)@ == old(out)@ + attribute_text(*a),
{
    match a {
        Attribute::Help(s) => {
            put(out, "help\n  ");
            put_string(out, s);
        },
        Attribute::Prompt(p) => {
            put(out, "prompt ");
            write_prompt(p, out);
        },
        Attribute::Modules => put(out, "modules"),
        Attribute::Select(s) => {
            put(out, "select ");
            write_select(s, out);
        },
        Attribute::DependsOn(d) => {
            put(out, "depends on ");
            write_or(d, out);
        },
        Attribute::Optional => put(out, "optional"),
        Attribute::Range(r) => {
            put(out, "range ");
            write_range(r, out);
        },
        Attribute::Visible(None) => put(out, "visible"),
        Attribute::Visible(Some(e)) => {
            put(out, "visible if ");
            write_or(e, out);
        },
        Attribute::Default(d) => {
            put(out, "default ");
            write_default(d, out);
        },
        Attribute::Imply(i) => {
            put(out, "imply ");
            write_imply(i, out);
        },
        Attribute::Requires(r) => {
            put(out, "requires ");
            write_or(r, out);
        },
        Attribute::Type(t) => write_config_type(t, out),
        Attribute::Option(o) => {
            put(out, "option ");
            write_option(o, out);
        },
        Attribute::Transitional => put(out, "transitional"),
    }
    assert(out@ =~= old(out)@ + attribute_text(*a));
}

impl Symbol {
    /// The textual form.
    pub fn to_string(&self) -> (r: String)
        ensures
            r@ == symbol_text(*self),
    {
        let mut out: Vec<char> = Vec::new();
        write_symbol(self, &mut out);
        assert(out@ =~= symbol_text(*self));
        finish(out)
    }
}

impl CompareOperator {
    /// The textual form.
    pub fn to_string(&self) -> (r: String)
        ensures
            r@ == operator_text(*self),
    {
        let mut out: Vec<char> = Vec::new();
        write_operator(self, &mut out);
        assert(out@ =~= operator_text(*self));
        finish(out)
    }
}

impl CompareExpression {
    /// The textual form.
    pub fn to_string(&self) -> (r: String)
        ensures
            r@ == compare_text(*self),
    {
        let mut out: Vec<char> = Vec::new();
        write_compare(self, &mut out);
        assert(out@ =~= compare_text(*self));
        finish(out)
    }
}

impl Atom {
    /// The textual form.
    pub fn to_string(&self) -> (r: String)
        ensures
            r@ == atom_text(*self),
    {
        let mut out: Vec<char> = Vec::new();
        write_atom(self, &mut out);
        assert(out@ =~= atom_text(*self));
        finish(out)
    }
}

impl Term {
    /// The textual form.
    pub fn to_string(&self) -> (r: String)
        ensures
            r@ == term_text(*self),
    {
        let mut out: Vec<char> = Vec::new();
        write_term(self, &mut out);
        assert(out@ =~= term_text(*self));
        finish(out)
    }
}

impl AndExpression {
    /// The textual form.
    pub fn to_string(&self) -> (r: String)
        ensures
            r@ == and_text(*self),
    {
        let mut out: Vec<char> = Vec::new();
        write_and(self, &mut out);
        assert(out@ =~= and_text(*self));
        finish(out)
    }
}

impl OrExpression {
    /// The textual form.
    pub fn to_string(&self) -> (r: String)
        ensures
            r@ == or_text(*self),
    {
        let mut out: Vec<char> = Vec::new();
        write_or(self, &mut out);
        assert(out@ =~= or_text(*self));
        finish(out)
    }
}

impl FunctionCall {
    /// The textual form.
    pub fn to_string(&self) -> (r: String)
        ensures
            r@ == call_text(*self),
    {
        let mut out: Vec<char> = Vec::new();
        write_call(self, &mut out);
        assert(out@ =~= call_text(*self));
        finish(out)
    }
}

impl ExpressionToken {
    /// The textual form.
    pub fn to_string(&self) -> (r: String)
        ensures
            r@ == token_text(*self),
    {
        let mut out: Vec<char> = Vec::new();
        write_token(self, &mut out);
        assert(out@ =~= token_text(*self));
        finish(out)
    }
}

impl Prompt {
    /// The textual form.
    pub fn to_string(&self) -> (r: String)
        ensures
            r@ == prompt_text(*self),
    {
        let mut out: Vec<char> = Vec::new();
        write_prompt(self, &mut out);
        assert(out@ =~= prompt_text(*self));
        finish(out)
    }
}

impl Select {
    /// The textual form.
    pub fn to_string(&self) -> (r: String)
        ensures
            r@ == select_text(*self),
    {
        let mut out: Vec<char> = Vec::new();
        write_select(self, &mut out);
        assert(out@ =~= select_text(*self));
        finish(out)
    }
}

impl Range {
    /// The textual form.
    pub fn to_string(&self) -> (r: String)
        ensures
            r@ == range_text(*self),
    {
        let mut out: Vec<char> = Vec::new();
        write_range(self, &mut out);
        assert(out@ =~= range_text(*self));
        finish(out)
    }
}

impl DefaultAttribute {
    /// The textual form.
    pub fn to_string(&self) -> (r: String)
        ensures
            r@ == default_text(*self),
    {
        let mut out: Vec<char> = Vec::new();
        write_default(self, &mut out);
        assert(out@ =~= default_text(*self));
        finish(out)
    }
}

impl Imply {
    /// The textual form.
    pub fn to_string(&self) -> (r: String)
        ensures
            r@ == imply_text(*self),
    {
        let mut out: Vec<char> = Vec::new();
        write_imply(self, &mut out);
        assert(out@ =~= imply_text(*self));
        finish(out)
    }
}

impl OptionValues {
    /// The textual form.
    pub fn to_string(&self) -> (r: String)
        ensures
            r@ == option_text(*self),
    {
        let mut out: Vec<char> = Vec::new();
        write_option(self, &mut out);
        assert(out@ =~= option_text(*self));
        finish(out)
    }
}

impl Type {
    /// The textual form.
    pub fn to_string(&self) -> (r: String)
        ensures
            r@ == type_text(*self),
    {
        let mut out: Vec<char> = Vec::new();
        write_type(self, &mut out);
        assert(out@ =~= type_text(*self));
        finish(out)
    }
}

impl ConfigType {
    /// The textual form.
    pub fn to_string(&self) -> (r: String)
        ensures
            r@ == config_type_text(*self),
    {
        let mut out: Vec<char> = Vec::new();
        write_config_type(self, &mut out);
        assert(out@ =~= config_type_text(*self));
        finish(out)
    }
}

impl Attribute {
    /// The textual form.
    pub fn to_string(&self) -> (r: String)
        ensures
            r@ == attribute_text(*self),
    {
        let mut out: Vec<char> = Vec::new();
        write_attribute(self, &mut out);
        assert(out@ =~= attribute_text(*self));
        finish(out)
    }
}

impl Parameter {
    /// The textual form: the tokens one after the other.
    pub fn to_string(&self) -> (r: String)
        ensures
            r@ == parameter_text(*self),
    {
        let mut out: Vec<char> = Vec::new();
        write_tokens(&self.tokens, &mut out);
        assert(out@ =~= parameter_text(*self));
        finish(out)
    }
}

} // verus!
