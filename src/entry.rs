//! The entries of a Kconfig file: `config`, `menu`, `choice`, `if`, `source`, and the rest.

use vstd::prelude::*;
use crate::attribute::{
    attribute_view, attributes_view, keyword_at, parse_attribute, parse_depends_on,
    parse_optional, parse_prompt_value, parse_type, spec_attribute, spec_depends_on,
    spec_prompt_value, spec_type, spec_visible, trim, Attribute, AttributeV,
};
use crate::expression::{
    opt_view, or_view, parse_if_expression, spec_if_expression, Expression, OrV,
};
use crate::function::{
    call_view, parse_expression_token_variable_parameter, parse_function_call, spec_call,
    spec_variable, token_view, tokens_view, CallV, ExpressionToken, FunctionCall, TokenV,
};
use crate::kconfig::{parse_kconfig_text, spec_kconfig_text, Kconfig};
use crate::text::{
    alnum, chars_of, find_line_end, is_alnum, lemma_run_end, line_end, run_end, string_of, tag,
    ws_comment, ws_comment_end, wsi, wsi_end,
};
use crate::vars::{apply_vars, dollar_references, lookup, lookup_var, substitute, vars_view};
use crate::{mismatch, Context, ErrorKind, ParseError, PResult};

verus! {

/// `config SYMBOL` and its attributes. A `menuconfig` has the same shape.
#[derive(Debug, PartialEq, Eq)]
pub struct Config {
    pub symbol: String,
    pub attributes: Vec<Attribute>,
}

pub type MenuConfig = Config;

/// `choice ... endchoice`: the choice's attributes, and the entries to choose among.
#[derive(Debug, PartialEq, Eq)]
pub struct Choice {
    pub options: Vec<Attribute>,
    pub entries: Vec<Entry>,
}

/// `menu "prompt" ... endmenu`. The header admits `visible` and `depends on` only.
#[derive(Debug, PartialEq, Eq)]
pub struct Menu {
    pub prompt: String,
    pub visible: Option<Option<Expression>>,
    pub depends_on: Vec<Expression>,
    pub entries: Vec<Entry>,
}

/// `comment "prompt"` with its dependencies.
#[derive(Debug, PartialEq, Eq)]
pub struct Comment {
    pub prompt: String,
    pub dependencies: Vec<Attribute>,
}

/// `if expr ... endif`.
#[derive(Debug, PartialEq, Eq)]
pub struct If {
    pub condition: Expression,
    pub entries: Vec<Entry>,
}

/// `mainmenu "prompt"`.
#[derive(Debug, PartialEq, Eq)]
pub struct MainMenu {
    pub prompt: String,
}

/// The definition of a macro-language function: `name = body`.
#[derive(Debug, PartialEq, Eq)]
pub struct Function {
    pub name: String,
    pub body: String,
}

/// `identifier operator value`, such as `cc-name := gcc`.
#[derive(Debug, PartialEq, Eq)]
pub struct VariableAssignment {
    pub identifier: VariableIdentifier,
    pub operator: String,
    pub right: Value,
}

#[derive(Debug, PartialEq, Eq)]
pub enum VariableIdentifier {
    Identifier(String),
    VariableRef(Vec<ExpressionToken>),
}

#[derive(Debug, PartialEq, Eq)]
pub enum Value {
    Literal(String),
    ExpandedVariable(String),
}

/// A `source`d file: the parsed file, or a placeholder with no entries.
pub type Source = Kconfig;

/// An entry of a Kconfig file.
#[derive(Debug, PartialEq, Eq)]
pub enum Entry {
    Config(Config),
    Choice(Choice),
    MenuConfig(MenuConfig),
    Menu(Menu),
    Comment(Comment),
    Source(Source),
    VariableAssignment(VariableAssignment),
    FunctionCall(FunctionCall),
    Function(Function),
    If(If),
    MainMenu(MainMenu),
}

/// The value of a parsed file.
pub struct KconfigV {
    pub file: Seq<char>,
    pub entries: Seq<EntryV>,
}

pub enum IdentV {
    Identifier(Seq<char>),
    VariableRef(Seq<TokenV>),
}

pub enum ValueV {
    Literal(Seq<char>),
    ExpandedVariable(Seq<char>),
}

/// The value of an entry.
pub enum EntryV {
    Config(Seq<char>, Seq<AttributeV>),
    Choice(Seq<AttributeV>, Seq<EntryV>),
    MenuConfig(Seq<char>, Seq<AttributeV>),
    Menu(Seq<char>, Option<Option<OrV>>, Seq<OrV>, Seq<EntryV>),
    Comment(Seq<char>, Seq<AttributeV>),
    Source(KconfigV),
    VariableAssignment(IdentV, Seq<char>, ValueV),
    FunctionCall(CallV),
    Function(Seq<char>, Seq<char>),
    If(OrV, Seq<EntryV>),
    MainMenu(Seq<char>),
}

/// What an entry-level parser gives: a value and where it ends, no match (the
/// next alternative may be tried), or a fatal error.
pub enum Outcome<V> {
    Done(int, V),
    NoMatch,
    Fatal(ErrorKind),
}

/// The outcome with `pre` put before the values of a successful one.
pub open spec fn prefixed(pre: Seq<EntryV>, o: Outcome<Seq<EntryV>>) -> Outcome<Seq<EntryV>> {
    match o {
        Outcome::Done(e, v) => Outcome::Done(e, pre + v),
        Outcome::NoMatch => Outcome::NoMatch,
        Outcome::Fatal(k) => Outcome::Fatal(k),
    }
}

/// A parse error agrees with an outcome: a mismatch with no match, a fatal error with the same kind.
pub open spec fn err_agrees<V>(err: ParseError, o: Outcome<V>) -> bool {
    if err.kind is Mismatch {
        o is NoMatch
    } else {
        o == Outcome::<V>::Fatal(err.kind)
    }
}

pub open spec fn ident_view(i: VariableIdentifier) -> IdentV {
    match i {
        VariableIdentifier::Identifier(s) => IdentV::Identifier(s@),
        VariableIdentifier::VariableRef(v) => IdentV::VariableRef(tokens_view(v@)),
    }
}

pub open spec fn value_view(v: Value) -> ValueV {
    match v {
        Value::Literal(s) => ValueV::Literal(s@),
        Value::ExpandedVariable(s) => ValueV::ExpandedVariable(s@),
    }
}

pub open spec fn exprs_view(v: Seq<Expression>) -> Seq<OrV> {
    v.map_values(|x: Expression| or_view(x))
}

pub open spec fn visible_view(v: Option<Option<Expression>>) -> Option<Option<OrV>> {
    match v {
        Some(x) => Some(opt_view(x)),
        None => None,
    }
}

pub open spec fn kconfig_view(k: Kconfig) -> KconfigV
    decreases k,
{
    KconfigV { file: k.file@, entries: entries_view(k.entries@) }
}

pub open spec fn entry_view(e: Entry) -> EntryV
    decreases e,
{
    match e {
        Entry::Config(c) => EntryV::Config(c.symbol@, attributes_view(c.attributes@)),
        Entry::Choice(c) => EntryV::Choice(attributes_view(c.options@), entries_view(c.entries@)),
        Entry::MenuConfig(c) => EntryV::MenuConfig(c.symbol@, attributes_view(c.attributes@)),
        Entry::Menu(m) => EntryV::Menu(
            m.prompt@,
            visible_view(m.visible),
            exprs_view(m.depends_on@),
            entries_view(m.entries@),
        ),
        Entry::Comment(c) => EntryV::Comment(c.prompt@, attributes_view(c.dependencies@)),
        Entry::Source(k) => EntryV::Source(kconfig_view(k)),
        Entry::VariableAssignment(v) => EntryV::VariableAssignment(
            ident_view(v.identifier),
            v.operator@,
            value_view(v.right),
        ),
        Entry::FunctionCall(f) => EntryV::FunctionCall(call_view(f)),
        Entry::Function(f) => EntryV::Function(f.name@, f.body@),
        Entry::If(i) => EntryV::If(or_view(i.condition), entries_view(i.entries@)),
        Entry::MainMenu(m) => EntryV::MainMenu(m.prompt@),
    }
}

pub open spec fn entries_view(es: Seq<Entry>) -> Seq<EntryV>
    decreases es,
{
    if es.len() == 0 {
        Seq::empty()
    } else {
        entries_view(es.subrange(0, es.len() - 1)).push(entry_view(es[es.len() - 1]))
    }
}

proof fn lemma_entries_view_push(es: Seq<Entry>, e: Entry)
    ensures
        entries_view(es.push(e)) == entries_view(es).push(entry_view(e)),
{
    assert(es.push(e).subrange(0, es.len() as int) =~= es);
}

/// Characters of a config symbol: letters, digits and `_`.
pub open spec fn config_chars() -> spec_fn(char) -> bool {
    |c: char| is_alnum(c) || c == '_'
}

/// Characters of a function name in a definition: also `$`, `(` and `)`.
pub open spec fn definition_chars() -> spec_fn(char) -> bool {
    |c: char| is_alnum(c) || c == '_' || c == '$' || c == '(' || c == ')'
}

/// Characters of a variable name: also `-`.
pub open spec fn identifier_chars() -> spec_fn(char) -> bool {
    |c: char| is_alnum(c) || c == '_' || c == '-'
}

/// Characters of a path: also `.`, `$`, `(`, `)`, `-` and `/`.
pub open spec fn path_chars() -> spec_fn(char) -> bool {
    |c: char| is_alnum(c) || c == '_' || c == '.' || c == '$' || c == '(' || c == ')' || c == '-'
        || c == '/'
}

pub open spec fn class_chars(class: int) -> spec_fn(char) -> bool {
    if class == 0 {
        config_chars()
    } else if class == 1 {
        definition_chars()
    } else if class == 2 {
        identifier_chars()
    } else {
        path_chars()
    }
}

/// A config symbol after the blanks at `pos`.
pub open spec fn spec_config_symbol(s: Seq<char>, pos: int) -> Option<(int, Seq<char>)> {
    let st = ws_comment_end(s, pos);
    let e = run_end(s, st, config_chars());
    if e > st {
        Some((e, s.subrange(st, e)))
    } else {
        None
    }
}

/// Type declarations and attributes from `p` on, for as long as there are some.
pub open spec fn config_attrs(s: Seq<char>, p: int) -> (int, Seq<AttributeV>)
    decreases s.len() - p,
{
    let at = ws_comment_end(s, p);
    let next = if spec_type(s, at) is Some {
        let (e, ty, c) = spec_type(s, at)->0;
        Some((e, AttributeV::Type(ty, c)))
    } else {
        spec_attribute(s, at)
    };
    match next {
        Some((e, a)) => if p < e <= s.len() {
            let (e2, rest) = config_attrs(s, e);
            (e2, seq![a] + rest)
        } else {
            (p, Seq::empty())
        },
        None => (p, Seq::empty()),
    }
}

/// `keyword SYMBOL` and the type declarations and attributes that follow.
pub open spec fn spec_config_like(s: Seq<char>, pos: int, k: Seq<char>) -> Option<(int, Seq<char>, Seq<AttributeV>)> {
    match keyword_at(s, pos, k) {
        Some(kw) => match spec_config_symbol(s, kw) {
            Some((p, name)) => Some((config_attrs(s, p).0, name, config_attrs(s, p).1)),
            None => None,
        },
        None => None,
    }
}

/// The attributes of a choice from `p` on: attributes, type declarations and `optional`.
pub open spec fn choice_attrs(s: Seq<char>, p: int) -> (int, Seq<AttributeV>)
    decreases s.len() - p,
{
    let next = if spec_attribute(s, p) is Some {
        spec_attribute(s, p)
    } else if spec_type(s, p) is Some {
        let (e, ty, c) = spec_type(s, p)->0;
        Some((e, AttributeV::Type(ty, c)))
    } else {
        match keyword_at(s, p, "optional"@) {
            Some(e) => Some((e, AttributeV::Optional)),
            None => None,
        }
    };
    match next {
        Some((e, a)) => if p < e <= s.len() {
            let (e2, rest) = choice_attrs(s, e);
            (e2, seq![a] + rest)
        } else {
            (p, Seq::empty())
        },
        None => (p, Seq::empty()),
    }
}

/// The `depends on` and `visible` attributes of a menu header from `p` on:
/// where they end, the last `visible`, and the dependencies in order.
pub open spec fn menu_header(s: Seq<char>, p: int) -> (int, Option<Option<OrV>>, Seq<OrV>)
    decreases s.len() - p,
{
    let at = ws_comment_end(s, p);
    match spec_depends_on(s, at) {
        Some((e, x)) => if p < e <= s.len() {
            let (e2, v2, d2) = menu_header(s, e);
            (e2, v2, seq![x] + d2)
        } else {
            (p, None, Seq::empty())
        },
        None => match spec_visible(s, at) {
            Some((e, x)) => if p < e <= s.len() {
                let (e2, v2, d2) = menu_header(s, e);
                (e2, if v2 is Some {
                    v2
                } else {
                    Some(x)
                }, d2)
            } else {
                (p, None, Seq::empty())
            },
            None => (p, None, Seq::empty()),
        },
    }
}

/// The `depends on` attributes of a comment from `p` on.
pub open spec fn comment_deps(s: Seq<char>, p: int) -> (int, Seq<AttributeV>)
    decreases s.len() - p,
{
    match spec_depends_on(s, ws_comment_end(s, p)) {
        Some((e, x)) => if p < e <= s.len() {
            let (e2, rest) = comment_deps(s, e);
            (e2, seq![AttributeV::DependsOn(x)] + rest)
        } else {
            (p, Seq::empty())
        },
        None => (p, Seq::empty()),
    }
}

/// `comment "prompt"` and its dependencies.
pub open spec fn spec_comment(s: Seq<char>, pos: int) -> Option<(int, Seq<char>, Seq<AttributeV>)> {
    match keyword_at(s, pos, "comment"@) {
        Some(kw) => match spec_prompt_value(s, kw) {
            Some((p, prompt)) => Some((comment_deps(s, p).0, prompt, comment_deps(s, p).1)),
            None => None,
        },
        None => None,
    }
}

/// `mainmenu "prompt"`.
pub open spec fn spec_main_menu(s: Seq<char>, pos: int) -> Option<(int, Seq<char>)> {
    match keyword_at(s, pos, "mainmenu"@) {
        Some(kw) => spec_prompt_value(s, kw),
        None => None,
    }
}

/// `name = body`, the body running to a line break that must be there.
pub open spec fn spec_function(s: Seq<char>, pos: int) -> Option<(int, Seq<char>, Seq<char>)> {
    let st = ws_comment_end(s, pos);
    let ne = run_end(s, st, definition_chars());
    let eq = ws_comment_end(s, ne);
    let b = ws_comment_end(s, eq + 1);
    let eol = line_end(s, b);
    let body_end = if eol > b && s[eol - 1] == '\r' {
        eol - 1
    } else {
        eol
    };
    if ne > st && 0 <= eq < s.len() && s[eq] == '=' && eol < s.len() {
        Some((eol + 1, s.subrange(st, ne), s.subrange(b, body_end)))
    } else {
        None
    }
}

/// Variable references from `p` on, for as long as there are some.
pub open spec fn var_refs(s: Seq<char>, p: int) -> (int, Seq<TokenV>)
    decreases s.len() - p,
{
    match spec_variable(s, p) {
        Some((e, t)) => if p < e <= s.len() {
            let (e2, rest) = var_refs(s, e);
            (e2, seq![t] + rest)
        } else {
            (p, Seq::empty())
        },
        None => (p, Seq::empty()),
    }
}

/// The left-hand side of an assignment: a name, or else variable references.
pub open spec fn spec_variable_identifier(s: Seq<char>, pos: int) -> Option<(int, IdentV)> {
    let st = ws_comment_end(s, pos);
    let e = run_end(s, st, identifier_chars());
    if e > st {
        Some((e, IdentV::Identifier(s.subrange(st, e))))
    } else if var_refs(s, pos).1.len() == 0 || var_refs(s, pos).0 <= pos {
        None
    } else {
        Some((var_refs(s, pos).0, IdentV::VariableRef(var_refs(s, pos).1)))
    }
}

/// `=`, `:=` or `+=`.
pub open spec fn spec_assign(s: Seq<char>, pos: int) -> Option<(int, Seq<char>)> {
    if 0 <= pos < s.len() && s[pos] == '=' {
        Some((pos + 1, s.subrange(pos, pos + 1)))
    } else if 0 <= pos && pos + 1 < s.len() && (s[pos] == ':' || s[pos] == '+') && s[pos + 1]
        == '=' {
        Some((pos + 2, s.subrange(pos, pos + 2)))
    } else {
        None
    }
}

/// The rest of the line, trimmed, and where the line ends.
pub open spec fn spec_value(s: Seq<char>, pos: int) -> (int, Seq<char>) {
    let eol = line_end(s, pos);
    (if eol < s.len() {
        eol + 1
    } else {
        eol
    }, trim(s, pos, eol))
}

/// `identifier operator value`.
pub open spec fn spec_variable_assignment(s: Seq<char>, pos: int) -> Option<(int, IdentV, Seq<char>, ValueV)> {
    match spec_variable_identifier(s, pos) {
        Some((p, id)) => match spec_assign(s, ws_comment_end(s, p)) {
            Some((p2, op)) => {
                let (e, v) = spec_value(s, ws_comment_end(s, p2));
                if e > pos {
                    Some((e, id, op, ValueV::Literal(v)))
                } else {
                    None
                }
            },
            None => None,
        },
        None => None,
    }
}

/// The path of a `source`, quoted or not.
pub open spec fn spec_filepath(s: Seq<char>, pos: int) -> Option<(int, Seq<char>)> {
    let st = wsi_end(s, pos);
    let a = ws_comment_end(s, st + 1);
    let e = run_end(s, a, path_chars());
    let a2 = ws_comment_end(s, st);
    let e2 = run_end(s, a2, path_chars());
    if 0 <= st < s.len() && s[st] == '"' && e > a && e < s.len() && s[e] == '"' {
        Some((e + 1, s.subrange(a, e)))
    } else if e2 > a2 {
        Some((e2, s.subrange(a2, e2)))
    } else {
        None
    }
}

/// The file that `source path` brings in; see [`resolve_source`].
pub open spec fn spec_resolve(path: Seq<char>, ctx: Context, depth: int) -> Result<KconfigV, ErrorKind>
    decreases depth, 0int, 0int,
{
    match substitute(path, dollar_references(path), vars_view(ctx.file.vars@)) {
        None => Ok(KconfigV { file: path, entries: Seq::empty() }),
        Some(p) => match lookup(vars_view(ctx.sources@), p) {
            None => if ctx.fail_on_missing_source {
                Err(ErrorKind::MissingSource)
            } else {
                Ok(KconfigV { file: p, entries: Seq::empty() })
            },
            Some(content) => if depth <= 0 {
                Err(ErrorKind::SourceTooDeep)
            } else if content.len() > usize::MAX / 8 {
                Err(ErrorKind::SourceFailed)
            } else {
                match spec_kconfig_text(content, p, ctx, depth - 1) {
                    Ok(k) => Ok(k),
                    Err(kind) => if kind is SourceTooDeep {
                        Err(ErrorKind::SourceTooDeep)
                    } else {
                        Err(ErrorKind::SourceFailed)
                    },
                }
            },
        },
    }
}

/// `source path`.
pub open spec fn spec_source(s: Seq<char>, pos: int, ctx: Context, depth: int) -> Outcome<EntryV>
    decreases depth, s.len() - pos, 1int,
{
    match keyword_at(s, pos, "source"@) {
        Some(kw) => match spec_filepath(s, kw) {
            Some((e, path)) => if depth < 0 || pos < 0 || pos > s.len() {
                Outcome::NoMatch
            } else {
                match spec_resolve(path, ctx, depth) {
                    Ok(k) => Outcome::Done(e, EntryV::Source(k)),
                    Err(kind) => Outcome::Fatal(kind),
                }
            },
            None => Outcome::NoMatch,
        },
        None => Outcome::NoMatch,
    }
}

/// Entries from `p` on, for as long as there are some; a fatal error ends them all.
pub open spec fn block_from(s: Seq<char>, p: int, ctx: Context, depth: int) -> Outcome<Seq<EntryV>>
    decreases depth, s.len() - p, 3int,
{
    if depth < 0 || p < 0 || p > s.len() {
        Outcome::Done(p, Seq::empty())
    } else {
        match spec_entry(s, p, ctx, depth) {
            Outcome::Done(e, x) => if p < e <= s.len() {
                prefixed(seq![x], block_from(s, e, ctx, depth))
            } else {
                Outcome::Done(p, Seq::empty())
            },
            Outcome::NoMatch => Outcome::Done(p, Seq::empty()),
            Outcome::Fatal(k) => Outcome::Fatal(k),
        }
    }
}

/// `choice [SYMBOL]`, its attributes, its entries and `endchoice`.
pub open spec fn spec_choice(s: Seq<char>, pos: int, ctx: Context, depth: int) -> Outcome<EntryV>
    decreases depth, s.len() - pos, 1int,
{
    if depth < 0 || pos < 0 || pos > s.len() || !crate::text::has_tag(s, pos, "choice"@) {
        Outcome::NoMatch
    } else {
        let p = pos + "choice"@.len();
        let p1 = match spec_config_bareword(s, p) {
            Some(e) => if 0 <= e < s.len() && s[e] == '\n' {
                e + 1
            } else {
                p
            },
            None => p,
        };
        let (p2, options) = choice_attrs(s, ws_comment_end(s, p1));
        if !(pos < p2 <= s.len()) {
            Outcome::NoMatch
        } else {
            match block_from(s, p2, ctx, depth) {
                Outcome::Done(p3, entries) => match keyword_at(s, p3, "endchoice"@) {
                    Some(e) => if e > pos {
                        Outcome::Done(e, EntryV::Choice(options, entries))
                    } else {
                        Outcome::NoMatch
                    },
                    None => Outcome::Fatal(ErrorKind::Unterminated),
                },
                Outcome::NoMatch => Outcome::NoMatch,
                Outcome::Fatal(k) => Outcome::Fatal(k),
            }
        }
    }
}

/// Where a bareword symbol after the blanks at `pos` ends.
pub open spec fn spec_config_bareword(s: Seq<char>, pos: int) -> Option<int> {
    if crate::symbol::bareword_end(s, pos) > ws_comment_end(s, pos) {
        Some(crate::symbol::bareword_end(s, pos))
    } else {
        None
    }
}

/// `menu "prompt"`, its header, its entries and `endmenu`.
pub open spec fn spec_menu(s: Seq<char>, pos: int, ctx: Context, depth: int) -> Outcome<EntryV>
    decreases depth, s.len() - pos, 1int,
{
    match keyword_at(s, pos, "menu"@) {
        Some(kw) => match spec_prompt_value(s, kw) {
            Some((p, prompt)) => {
                let (p2, vis, deps) = menu_header(s, p);
                if depth < 0 || !(0 <= pos < p2 <= s.len()) {
                    Outcome::NoMatch
                } else {
                    match block_from(s, p2, ctx, depth) {
                        Outcome::Done(p3, entries) => match keyword_at(s, p3, "endmenu"@) {
                            Some(e) => if e > pos {
                                Outcome::Done(e, EntryV::Menu(prompt, vis, deps, entries))
                            } else {
                                Outcome::NoMatch
                            },
                            None => Outcome::Fatal(ErrorKind::Unterminated),
                        },
                        Outcome::NoMatch => Outcome::NoMatch,
                        Outcome::Fatal(k) => Outcome::Fatal(k),
                    }
                }
            },
            None => Outcome::NoMatch,
        },
        None => Outcome::NoMatch,
    }
}

/// `if expr`, its entries and `endif`.
pub open spec fn spec_if(s: Seq<char>, pos: int, ctx: Context, depth: int) -> Outcome<EntryV>
    decreases depth, s.len() - pos, 1int,
{
    match spec_if_expression(s, ws_comment_end(s, pos)) {
        Some((p, cond)) => if depth < 0 || !(0 <= pos < p <= s.len()) {
            Outcome::NoMatch
        } else {
            match block_from(s, p, ctx, depth) {
                Outcome::Done(p3, entries) => match keyword_at(s, p3, "endif"@) {
                    Some(e) => if e > pos {
                        Outcome::Done(e, EntryV::If(cond, entries))
                    } else {
                        Outcome::NoMatch
                    },
                    None => Outcome::Fatal(ErrorKind::Unterminated),
                },
                Outcome::NoMatch => Outcome::NoMatch,
                Outcome::Fatal(k) => Outcome::Fatal(k),
            }
        },
        None => Outcome::NoMatch,
    }
}

/// One entry after the blanks and comments at `pos`; see [`parse_entry`].
pub open spec fn spec_entry(s: Seq<char>, pos: int, ctx: Context, depth: int) -> Outcome<EntryV>
    decreases depth, s.len() - pos, 2int,
{
    let st = ws_comment_end(s, pos);
    if depth < 0 || !(0 <= pos <= st <= s.len()) {
        Outcome::NoMatch
    } else if spec_config_like(s, st, "config"@) is Some {
        let (e, n, a) = spec_config_like(s, st, "config"@)->0;
        Outcome::Done(e, EntryV::Config(n, a))
    } else if !(spec_choice(s, st, ctx, depth) is NoMatch) {
        spec_choice(s, st, ctx, depth)
    } else if spec_config_like(s, st, "menuconfig"@) is Some {
        let (e, n, a) = spec_config_like(s, st, "menuconfig"@)->0;
        Outcome::Done(e, EntryV::MenuConfig(n, a))
    } else if spec_function(s, st) is Some {
        let (e, n, b) = spec_function(s, st)->0;
        Outcome::Done(e, EntryV::Function(n, b))
    } else if spec_main_menu(s, st) is Some {
        let (e, p) = spec_main_menu(s, st)->0;
        Outcome::Done(e, EntryV::MainMenu(p))
    } else if !(spec_if(s, st, ctx, depth) is NoMatch) {
        spec_if(s, st, ctx, depth)
    } else if !(spec_menu(s, st, ctx, depth) is NoMatch) {
        spec_menu(s, st, ctx, depth)
    } else if spec_comment(s, st) is Some {
        let (e, p, d) = spec_comment(s, st)->0;
        Outcome::Done(e, EntryV::Comment(p, d))
    } else if !(spec_source(s, st, ctx, depth) is NoMatch) {
        spec_source(s, st, ctx, depth)
    } else if spec_variable_assignment(s, st) is Some {
        let (e, id, op, v) = spec_variable_assignment(s, st)->0;
        Outcome::Done(e, EntryV::VariableAssignment(id, op, v))
    } else {
        match spec_call(s, st) {
            Some((e, f)) => Outcome::Done(e, EntryV::FunctionCall(f)),
            None => Outcome::NoMatch,
        }
    }
}

/// A fatal error at `pos`.
fn fail<T>(pos: usize, kind: ErrorKind) -> (r: PResult<T>)
    requires
        kind.is_fatal(),
    ensures
        r matches Err(err) && err.kind == kind,
{
    Err(ParseError { position: pos, kind })
}

/// Where the keyword `k` ends when it follows the blanks and comments at `pos`.
fn keyword(s: &[char], pos: usize, k: &str) -> (r: Option<usize>)
    requires
        pos <= s@.len(),
    ensures
        r matches Some(e) ==> keyword_at(s@, pos as int, k@) == Some(e as int) && pos <= e <= s@.len(),
        r is None ==> keyword_at(s@, pos as int, k@) is None,
{
    let st = ws_comment(s, pos);
    tag(s, st, k)
}

/// The end of the run of characters from `pos` that `class` accepts: 0 a
/// config symbol (letters, digits, `_`), 1 a function name (also `$`, `(`,
/// `)`), 2 a variable name (also `-`), 3 a path (also `.`, `$`, `(`, `)`, `-`, `/`).
fn run_of(s: &[char], pos: usize, class: u8) -> (r: usize)
    requires
        pos <= s@.len(),
        class <= 3,
    ensures
        pos <= r <= s@.len(),
        r == run_end(s@, pos as int, class_chars(class as int)),
{
    let ghost p = class_chars(class as int);
    let mut i = pos;
    loop
        invariant
            pos <= i <= s@.len(),
            class <= 3,
            p == class_chars(class as int),
            run_end(s@, i as int, p) == run_end(s@, pos as int, p),
        ensures
            pos <= i <= s@.len(),
            run_end(s@, i as int, p) == run_end(s@, pos as int, p),
            run_end(s@, i as int, p) == i,
        decreases s@.len() - i,
    {
        if i >= s.len() {
            break;
        }
        let c = s[i];
        let ok = alnum(c) || c == '_' || (class == 1 && (c == '$' || c == '(' || c == ')')) || (
        class == 2 && c == '-') || (class == 3 && (c == '.' || c == '$' || c == '(' || c == ')'
            || c == '-' || c == '/'));
        assert(ok == p(c));
        if !ok {
            break;
        }
        i += 1;
    }
    proof {
        lemma_run_end(s@, pos as int, p);
    }
    i
}

/// Reads a config symbol after blanks: letters, digits and `_`.
pub fn parse_config_symbol(s: &[char], pos: usize) -> (r: PResult<String>)
    requires
        pos <= s@.len(),
    ensures
        r matches Ok((e, t)) ==> spec_config_symbol(s@, pos as int) == Some((e as int, t@)),
        r is Err ==> spec_config_symbol(s@, pos as int) is None,
        r matches Ok((e, _)) ==> pos < e <= s@.len(),
        r matches Err(err) ==> err.kind is Mismatch,
{
    let st = ws_comment(s, pos);
    let e = run_of(s, st, 0);
    if e == st {
        return mismatch(pos);
    }
    Ok((e, string_of(s, st, e)))
}

/// Reads `keyword SYMBOL` and the type declarations and attributes that follow.
fn parse_config_like(s: &[char], pos: usize, k: &str) -> (r: PResult<Config>)
    requires
        pos <= s@.len(),
        s@.len() * 8 <= usize::MAX,
    ensures
        r matches Ok((e, c)) ==> spec_config_like(s@, pos as int, k@) == Some((e as int, c.symbol@, attributes_view(c.attributes@))),
        r is Err ==> spec_config_like(s@, pos as int, k@) is None,
        r matches Ok((e, _)) ==> pos <= e <= s@.len(),
        r matches Err(err) ==> err.kind is Mismatch,
{
    let kw = match keyword(s, pos, k) {
        Some(e) => e,
        None => return mismatch(pos),
    };
    let (mut p, symbol) = match parse_config_symbol(s, kw) {
        Ok(x) => x,
        Err(err) => return Err(err),
    };
    let ghost p0 = p;
    let mut attributes: Vec<Attribute> = Vec::new();
    assert(attributes_view(attributes@) =~= Seq::<AttributeV>::empty());
    loop
        invariant
            pos <= p0 <= p <= s@.len(),
            s@.len() * 8 <= usize::MAX,
            config_attrs(s@, p0 as int).0 == config_attrs(s@, p as int).0,
            config_attrs(s@, p0 as int).1 == attributes_view(attributes@) + config_attrs(s@, p as int).1,
        ensures
            pos <= p <= s@.len(),
            config_attrs(s@, p0 as int).0 == p,
            config_attrs(s@, p0 as int).1 == attributes_view(attributes@),
        decreases s@.len() - p,
    {
        let at = ws_comment(s, p);
        let next = match parse_type(s, at) {
            Ok(x) => Ok(x),
            Err(_) => parse_attribute(s, at),
        };
        match next {
            Ok((e, a)) => {
                if e <= p {
                    assert(attributes_view(attributes@) + Seq::<AttributeV>::empty() =~= attributes_view(attributes@));
                    break;
                }
                proof {
                    let rest = config_attrs(s@, e as int).1;
                    assert(attributes_view(attributes@.push(a)) =~= attributes_view(attributes@).push(attribute_view(a)));
                    assert(attributes_view(attributes@) + (seq![attribute_view(a)] + rest) =~= attributes_view(attributes@).push(attribute_view(a)) + rest);
                }
                attributes.push(a);
                p = e;
            },
            Err(_) => {
                assert(attributes_view(attributes@) + Seq::<AttributeV>::empty() =~= attributes_view(attributes@));
                break;
            },
        }
    }
    Ok((p, Config { symbol, attributes }))
}

/// Reads a `config` entry.
pub fn parse_config(s: &[char], pos: usize) -> (r: PResult<Config>)
    requires
        pos <= s@.len(),
        s@.len() * 8 <= usize::MAX,
    ensures
        r matches Ok((e, c)) ==> spec_config_like(s@, pos as int, "config"@) == Some((e as int, c.symbol@, attributes_view(c.attributes@))),
        r is Err ==> spec_config_like(s@, pos as int, "config"@) is None,
        r matches Ok((e, _)) ==> pos <= e <= s@.len(),
        r matches Err(err) ==> err.kind is Mismatch,
{
    parse_config_like(s, pos, "config")
}

/// Reads a `menuconfig` entry.
pub fn parse_menu_config(s: &[char], pos: usize) -> (r: PResult<MenuConfig>)
    requires
        pos <= s@.len(),
        s@.len() * 8 <= usize::MAX,
    ensures
        r matches Ok((e, c)) ==> spec_config_like(s@, pos as int, "menuconfig"@) == Some((e as int, c.symbol@, attributes_view(c.attributes@))),
        r is Err ==> spec_config_like(s@, pos as int, "menuconfig"@) is None,
        r matches Ok((e, _)) ==> pos <= e <= s@.len(),
        r matches Err(err) ==> err.kind is Mismatch,
{
    parse_config_like(s, pos, "menuconfig")
}

/// Reads the attributes of a choice: attributes, type declarations and `optional`.
fn parse_choice_attributes(s: &[char], pos: usize) -> (r: (usize, Vec<Attribute>))
    requires
        pos <= s@.len(),
        s@.len() * 8 <= usize::MAX,
    ensures
        (r.0 as int, attributes_view(r.1@)) == choice_attrs(s@, ws_comment_end(s@, pos as int)),
        pos <= r.0 <= s@.len(),
{
    let mut p = ws_comment(s, pos);
    let ghost p0 = p;
    let mut options: Vec<Attribute> = Vec::new();
    assert(attributes_view(options@) =~= Seq::<AttributeV>::empty());
    loop
        invariant
            pos <= p0 <= p <= s@.len(),
            s@.len() * 8 <= usize::MAX,
            choice_attrs(s@, p0 as int).0 == choice_attrs(s@, p as int).0,
            choice_attrs(s@, p0 as int).1 == attributes_view(options@) + choice_attrs(s@, p as int).1,
        ensures
            pos <= p <= s@.len(),
            choice_attrs(s@, p0 as int).0 == p,
            choice_attrs(s@, p0 as int).1 == attributes_view(options@),
        decreases s@.len() - p,
    {
        let next = match parse_attribute(s, p) {
            Ok(x) => Ok(x),
            Err(_) => match parse_type(s, p) {
                Ok(x) => Ok(x),
                Err(_) => match parse_optional(s, p) {
                    Ok((e, _)) => Ok((e, Attribute::Optional)),
                    Err(err) => Err(err),
                },
            },
        };
        match next {
            Ok((e, a)) => {
                if e <= p {
                    assert(attributes_view(options@) + Seq::<AttributeV>::empty() =~= attributes_view(options@));
                    break;
                }
                proof {
                    let rest = choice_attrs(s@, e as int).1;
                    assert(attributes_view(options@.push(a)) =~= attributes_view(options@).push(attribute_view(a)));
                    assert(attributes_view(options@) + (seq![attribute_view(a)] + rest) =~= attributes_view(options@).push(attribute_view(a)) + rest);
                }
                options.push(a);
                p = e;
            },
            Err(_) => {
                assert(attributes_view(options@) + Seq::<AttributeV>::empty() =~= attributes_view(options@));
                break;
            },
        }
    }
    (p, options)
}

/// Reads entries for as long as there are some, stopping at a fatal error.
pub fn parse_block_entries(s: &[char], pos: usize, ctx: &Context, depth: usize) -> (r: PResult<Vec<Entry>>)
    requires
        pos <= s@.len(),
        s@.len() * 8 <= usize::MAX,
    ensures
        r matches Ok((e, v)) ==> block_from(s@, pos as int, *ctx, depth as int) == Outcome::Done(e as int, entries_view(v@)),
        r matches Err(err) ==> err.kind.is_fatal() && block_from(s@, pos as int, *ctx, depth as int) == Outcome::<Seq<EntryV>>::Fatal(err.kind),
        r matches Ok((e, _)) ==> pos <= e <= s@.len(),
    decreases depth, s@.len() - pos, 3int,
{
    let mut p = pos;
    let mut entries: Vec<Entry> = Vec::new();
    proof {
        assert(entries_view(entries@) =~= Seq::<EntryV>::empty());
        let b = block_from(s@, pos as int, *ctx, depth as int);
        if b is Done {
            assert(Seq::<EntryV>::empty() + b->Done_1 =~= b->Done_1);
        }
    }
    loop
        invariant
            pos <= p <= s@.len(),
            s@.len() * 8 <= usize::MAX,
            block_from(s@, pos as int, *ctx, depth as int) == prefixed(entries_view(entries@), block_from(s@, p as int, *ctx, depth as int)),
        ensures
            pos <= p <= s@.len(),
            block_from(s@, pos as int, *ctx, depth as int) == Outcome::Done(p as int, entries_view(entries@)),
        decreases s@.len() - p,
    {
        match parse_entry(s, p, ctx, depth) {
            Ok((e, x)) => {
                if e <= p {
                    assert(entries_view(entries@) + Seq::<EntryV>::empty() =~= entries_view(entries@));
                    break;
                }
                proof {
                    lemma_entries_view_push(entries@, x);
                    let rest = block_from(s@, e as int, *ctx, depth as int);
                    if rest is Done {
                        assert(entries_view(entries@) + (seq![entry_view(x)] + rest->Done_1) =~= entries_view(entries@).push(entry_view(x)) + rest->Done_1);
                    }
                }
                entries.push(x);
                p = e;
            },
            Err(err) => {
                if err.kind.is_fatal() {
                    return Err(err);
                }
                assert(entries_view(entries@) + Seq::<EntryV>::empty() =~= entries_view(entries@));
                break;
            },
        }
    }
    Ok((p, entries))
}

/// Reads `choice [SYMBOL]`, its attributes, its entries and `endchoice`.
/// Once `choice` is read, a missing `endchoice` is fatal. The entries of a
/// choice may be configs of any type, `string` included: none is refused.
pub fn parse_choice(s: &[char], pos: usize, ctx: &Context, depth: usize) -> (r: PResult<Choice>)
    requires
        pos <= s@.len(),
        s@.len() * 8 <= usize::MAX,
    ensures
        r matches Ok((e, c)) ==> spec_choice(s@, pos as int, *ctx, depth as int) == Outcome::Done(e as int, EntryV::Choice(attributes_view(c.options@), entries_view(c.entries@))),
        r matches Err(err) ==> err_agrees(err, spec_choice(s@, pos as int, *ctx, depth as int)),
        r matches Ok((e, _)) ==> pos < e <= s@.len(),
    decreases depth, s@.len() - pos, 1int,
{
    let mut p = match tag(s, pos, "choice") {
        Some(e) => e,
        None => return mismatch(pos),
    };
    if let Ok((e, _)) = crate::symbol::parse_constant_symbol(s, p) {
        if e < s.len() && s[e] == '\n' {
            p = e + 1;
        }
    }
    let (p2, options) = parse_choice_attributes(s, p);
    if p2 <= pos {
        return mismatch(pos);
    }
    let (p3, entries) = match parse_block_entries(s, p2, ctx, depth) {
        Ok(x) => x,
        Err(err) => return Err(err),
    };
    match keyword(s, p3, "endchoice") {
        Some(e) => if e > pos {
            Ok((e, Choice { options, entries }))
        } else {
            mismatch(pos)
        },
        None => fail(p3, ErrorKind::Unterminated),
    }
}

/// Reads `menu "prompt"`, its `depends on` and `visible` attributes, its
/// entries and `endmenu`. Once the header is read, a missing `endmenu` is fatal.
pub fn parse_menu(s: &[char], pos: usize, ctx: &Context, depth: usize) -> (r: PResult<Menu>)
    requires
        pos <= s@.len(),
        s@.len() * 8 <= usize::MAX,
    ensures
        r matches Ok((e, m)) ==> spec_menu(s@, pos as int, *ctx, depth as int) == Outcome::Done(e as int, EntryV::Menu(m.prompt@, visible_view(m.visible), exprs_view(m.depends_on@), entries_view(m.entries@))),
        r matches Err(err) ==> err_agrees(err, spec_menu(s@, pos as int, *ctx, depth as int)),
        r matches Ok((e, _)) ==> pos < e <= s@.len(),
    decreases depth, s@.len() - pos, 1int,
{
    let kw = match keyword(s, pos, "menu") {
        Some(e) => e,
        None => return mismatch(pos),
    };
    let (mut p, prompt) = match parse_prompt_value(s, kw) {
        Ok(x) => x,
        Err(err) => return Err(err),
    };
    let ghost p0 = p;
    let mut visible: Option<Option<Expression>> = None;
    let mut depends_on: Vec<Expression> = Vec::new();
    assert(exprs_view(depends_on@) =~= Seq::<OrV>::empty());
    loop
        invariant
            pos <= p0 <= p <= s@.len(),
            menu_header(s@, p0 as int).0 == menu_header(s@, p as int).0,
            menu_header(s@, p0 as int).2 == exprs_view(depends_on@) + menu_header(s@, p as int).2,
            menu_header(s@, p0 as int).1 == (if menu_header(s@, p as int).1 is Some {
                menu_header(s@, p as int).1
            } else {
                visible_view(visible)
            }),
        ensures
            pos <= p <= s@.len(),
            menu_header(s@, p0 as int).0 == p,
            menu_header(s@, p0 as int).2 == exprs_view(depends_on@),
            menu_header(s@, p0 as int).1 == visible_view(visible),
        decreases s@.len() - p,
    {
        let at = ws_comment(s, p);
        match parse_depends_on(s, at) {
            Ok((e, Attribute::DependsOn(x))) => {
                if e <= p {
                    assert(exprs_view(depends_on@) + Seq::<OrV>::empty() =~= exprs_view(depends_on@));
                    break;
                }
                proof {
                    let rest = menu_header(s@, e as int).2;
                    assert(exprs_view(depends_on@.push(x)) =~= exprs_view(depends_on@).push(or_view(x)));
                    assert(exprs_view(depends_on@) + (seq![or_view(x)] + rest) =~= exprs_view(depends_on@).push(or_view(x)) + rest);
                }
                depends_on.push(x);
                p = e;
            },
            _ => match crate::attribute::parse_visible(s, at) {
                Ok((e, x)) => {
                    if e <= p {
                        assert(exprs_view(depends_on@) + Seq::<OrV>::empty() =~= exprs_view(depends_on@));
                        break;
                    }
                    visible = Some(x);
                    p = e;
                },
                Err(_) => {
                    assert(exprs_view(depends_on@) + Seq::<OrV>::empty() =~= exprs_view(depends_on@));
                    break;
                },
            },
        }
    }
    if p <= pos {
        return mismatch(pos);
    }
    let (p3, entries) = match parse_block_entries(s, p, ctx, depth) {
        Ok(x) => x,
        Err(err) => return Err(err),
    };
    match keyword(s, p3, "endmenu") {
        Some(e) => if e > pos {
            Ok((e, Menu { prompt, visible, depends_on, entries }))
        } else {
            mismatch(pos)
        },
        None => fail(p3, ErrorKind::Unterminated),
    }
}

/// Reads `if expr`, its entries and `endif`. Once the condition is read, a missing `endif` is fatal.
pub fn parse_if(s: &[char], pos: usize, ctx: &Context, depth: usize) -> (r: PResult<If>)
    requires
        pos <= s@.len(),
        s@.len() * 8 <= usize::MAX,
    ensures
        r matches Ok((e, i)) ==> spec_if(s@, pos as int, *ctx, depth as int) == Outcome::Done(e as int, EntryV::If(or_view(i.condition), entries_view(i.entries@))),
        r matches Err(err) ==> err_agrees(err, spec_if(s@, pos as int, *ctx, depth as int)),
        r matches Ok((e, _)) ==> pos < e <= s@.len(),
    decreases depth, s@.len() - pos, 1int,
{
    let (p, condition) = match parse_if_expression(s, ws_comment(s, pos)) {
        Ok(x) => x,
        Err(err) => return Err(err),
    };
    if p <= pos {
        return mismatch(pos);
    }
    let (p3, entries) = match parse_block_entries(s, p, ctx, depth) {
        Ok(x) => x,
        Err(err) => return Err(err),
    };
    match keyword(s, p3, "endif") {
        Some(e) => if e > pos {
            Ok((e, If { condition, entries }))
        } else {
            mismatch(pos)
        },
        None => fail(p3, ErrorKind::Unterminated),
    }
}

/// Reads `comment "prompt"` and the `depends on` attributes that follow.
pub fn parse_comment(s: &[char], pos: usize) -> (r: PResult<Comment>)
    requires
        pos <= s@.len(),
    ensures
        r matches Ok((e, c)) ==> spec_comment(s@, pos as int) == Some((e as int, c.prompt@, attributes_view(c.dependencies@))),
        r is Err ==> spec_comment(s@, pos as int) is None,
        r matches Ok((e, _)) ==> pos <= e <= s@.len(),
        r matches Err(err) ==> err.kind is Mismatch,
{
    let kw = match keyword(s, pos, "comment") {
        Some(e) => e,
        None => return mismatch(pos),
    };
    let (mut p, prompt) = match parse_prompt_value(s, kw) {
        Ok(x) => x,
        Err(err) => return Err(err),
    };
    let ghost p0 = p;
    let mut dependencies: Vec<Attribute> = Vec::new();
    assert(attributes_view(dependencies@) =~= Seq::<AttributeV>::empty());
    loop
        invariant
            pos <= p0 <= p <= s@.len(),
            comment_deps(s@, p0 as int).0 == comment_deps(s@, p as int).0,
            comment_deps(s@, p0 as int).1 == attributes_view(dependencies@) + comment_deps(s@, p as int).1,
        ensures
            pos <= p <= s@.len(),
            comment_deps(s@, p0 as int).0 == p,
            comment_deps(s@, p0 as int).1 == attributes_view(dependencies@),
        decreases s@.len() - p,
    {
        match parse_depends_on(s, ws_comment(s, p)) {
            Ok((e, a)) => {
                if e <= p {
                    assert(attributes_view(dependencies@) + Seq::<AttributeV>::empty() =~= attributes_view(dependencies@));
                    break;
                }
                proof {
                    let rest = comment_deps(s@, e as int).1;
                    assert(attributes_view(dependencies@.push(a)) =~= attributes_view(dependencies@).push(attribute_view(a)));
                    assert(attributes_view(dependencies@) + (seq![attribute_view(a)] + rest) =~= attributes_view(dependencies@).push(attribute_view(a)) + rest);
                }
                dependencies.push(a);
                p = e;
            },
            Err(_) => {
                assert(attributes_view(dependencies@) + Seq::<AttributeV>::empty() =~= attributes_view(dependencies@));
                break;
            },
        }
    }
    Ok((p, Comment { prompt, dependencies }))
}

/// Reads `mainmenu "prompt"`.
pub fn parse_main_menu(s: &[char], pos: usize) -> (r: PResult<MainMenu>)
    requires
        pos <= s@.len(),
    ensures
        r matches Ok((e, m)) ==> spec_main_menu(s@, pos as int) == Some((e as int, m.prompt@)),
        r is Err ==> spec_main_menu(s@, pos as int) is None,
        r matches Ok((e, _)) ==> pos <= e <= s@.len(),
        r matches Err(err) ==> err.kind is Mismatch,
{
    let kw = match keyword(s, pos, "mainmenu") {
        Some(e) => e,
        None => return mismatch(pos),
    };
    match parse_prompt_value(s, kw) {
        Ok((e, prompt)) => Ok((e, MainMenu { prompt })),
        Err(err) => Err(err),
    }
}

/// Reads a function definition: a name, `=`, and the rest of the line, which must end with a line break.
pub fn parse_function(s: &[char], pos: usize) -> (r: PResult<Function>)
    requires
        pos <= s@.len(),
    ensures
        r matches Ok((e, f)) ==> spec_function(s@, pos as int) == Some((e as int, f.name@, f.body@)),
        r is Err ==> spec_function(s@, pos as int) is None,
        r matches Ok((e, _)) ==> pos < e <= s@.len(),
        r matches Err(err) ==> err.kind is Mismatch,
{
    let st = ws_comment(s, pos);
    let ne = run_of(s, st, 1);
    if ne == st {
        return mismatch(pos);
    }
    let eq = ws_comment(s, ne);
    if !(eq < s.len() && s[eq] == '=') {
        return mismatch(pos);
    }
    let b = ws_comment(s, eq + 1);
    let eol = find_line_end(s, b);
    if eol >= s.len() {
        return mismatch(pos);
    }
    let body_end = if eol > b && s[eol - 1] == '\r' {
        eol - 1
    } else {
        eol
    };
    Ok((eol + 1, Function { name: string_of(s, st, ne), body: string_of(s, b, body_end) }))
}

/// Reads the left-hand side of an assignment: a name of letters, digits, `-`
/// and `_`, or one or more variable references.
pub fn parse_variable_identifier(s: &[char], pos: usize) -> (r: PResult<VariableIdentifier>)
    requires
        pos <= s@.len(),
    ensures
        r matches Ok((e, i)) ==> spec_variable_identifier(s@, pos as int) == Some((e as int, ident_view(i))),
        r is Err ==> spec_variable_identifier(s@, pos as int) is None,
        r matches Ok((e, _)) ==> pos < e <= s@.len(),
        r matches Err(err) ==> err.kind is Mismatch,
{
    let st = ws_comment(s, pos);
    let e = run_of(s, st, 2);
    if e > st {
        return Ok((e, VariableIdentifier::Identifier(string_of(s, st, e))));
    }
    let mut p = pos;
    let mut refs: Vec<ExpressionToken> = Vec::new();
    assert(tokens_view(refs@) =~= Seq::<TokenV>::empty());
    loop
        invariant
            pos <= p <= s@.len(),
            var_refs(s@, pos as int).0 == var_refs(s@, p as int).0,
            var_refs(s@, pos as int).1 == tokens_view(refs@) + var_refs(s@, p as int).1,
            tokens_view(refs@).len() == refs@.len(),
        ensures
            pos <= p <= s@.len(),
            var_refs(s@, pos as int).0 == p,
            var_refs(s@, pos as int).1 == tokens_view(refs@),
            tokens_view(refs@).len() == refs@.len(),
        decreases s@.len() - p,
    {
        match parse_expression_token_variable_parameter(s, p) {
            Ok((e, t)) => {
                proof {
                    let rest = var_refs(s@, e as int).1;
                    assert(refs@.push(t).subrange(0, refs@.len() as int) =~= refs@);
                    assert(tokens_view(refs@.push(t)) == tokens_view(refs@).push(token_view(t)));
                    assert(tokens_view(refs@) + (seq![token_view(t)] + rest) =~= tokens_view(refs@).push(token_view(t)) + rest);
                }
                refs.push(t);
                p = e;
            },
            Err(_) => {
                assert(tokens_view(refs@) + Seq::<TokenV>::empty() =~= tokens_view(refs@));
                break;
            },
        }
    }
    if refs.len() == 0 || p <= pos {
        return mismatch(pos);
    }
    Ok((p, VariableIdentifier::VariableRef(refs)))
}

/// Reads an assignment operator: `=`, `:=` or `+=`.
pub fn parse_assign(s: &[char], pos: usize) -> (r: PResult<String>)
    requires
        pos <= s@.len(),
    ensures
        r matches Ok((e, op)) ==> spec_assign(s@, pos as int) == Some((e as int, op@)),
        r is Err ==> spec_assign(s@, pos as int) is None,
        r matches Ok((e, op)) ==> pos < e <= s@.len() && op@ == s@.subrange(pos as int, e as int),
        r matches Err(err) ==> err.kind is Mismatch,
{
    if pos < s.len() && s[pos] == '=' {
        return Ok((pos + 1, string_of(s, pos, pos + 1)));
    }
    if s.len() - pos >= 2 && (s[pos] == ':' || s[pos] == '+') && s[pos + 1] == '=' {
        return Ok((pos + 2, string_of(s, pos, pos + 2)));
    }
    mismatch(pos)
}

/// Reads the rest of the line, trimmed.
pub fn parse_value(s: &[char], pos: usize) -> (r: PResult<Value>)
    requires
        pos <= s@.len(),
    ensures
        r matches Ok((e, v)) ==> (e as int, value_view(v)) == (spec_value(s@, pos as int).0, ValueV::Literal(spec_value(s@, pos as int).1)),
        r matches Ok((e, _)) ==> pos <= e <= s@.len(),
        r is Ok,
{
    let eol = find_line_end(s, pos);
    let t = crate::attribute::trimmed(s, pos, eol);
    let e = if eol < s.len() {
        eol + 1
    } else {
        eol
    };
    Ok((e, Value::Literal(t)))
}

/// Reads `identifier operator value`.
pub fn parse_variable_assignment(s: &[char], pos: usize) -> (r: PResult<VariableAssignment>)
    requires
        pos <= s@.len(),
    ensures
        r matches Ok((e, v)) ==> spec_variable_assignment(s@, pos as int) == Some((e as int, ident_view(v.identifier), v.operator@, value_view(v.right))),
        r is Err ==> spec_variable_assignment(s@, pos as int) is None,
        r matches Ok((e, _)) ==> pos < e <= s@.len(),
        r matches Err(err) ==> err.kind is Mismatch,
{
    let (p, identifier) = match parse_variable_identifier(s, pos) {
        Ok(x) => x,
        Err(err) => return Err(err),
    };
    let (p, operator) = match parse_assign(s, ws_comment(s, p)) {
        Ok(x) => x,
        Err(err) => return Err(err),
    };
    match parse_value(s, ws_comment(s, p)) {
        Ok((e, right)) => if e > pos {
            Ok((e, VariableAssignment { identifier, operator, right }))
        } else {
            mismatch(pos)
        },
        Err(err) => Err(err),
    }
}

/// Reads the path of a `source` directive: letters, digits, `.`, `$`, `(`, `)`, `-`, `_` and `/`,
/// quoted or not.
pub fn parse_filepath(s: &[char], pos: usize) -> (r: PResult<String>)
    requires
        pos <= s@.len(),
    ensures
        r matches Ok((e, t)) ==> spec_filepath(s@, pos as int) == Some((e as int, t@)),
        r is Err ==> spec_filepath(s@, pos as int) is None,
        r matches Ok((e, _)) ==> pos < e <= s@.len(),
        r matches Err(err) ==> err.kind is Mismatch,
{
    let st = wsi(s, pos);
    if st < s.len() && s[st] == '"' {
        let a = ws_comment(s, st + 1);
        let e = run_of(s, a, 3);
        if e > a && e < s.len() && s[e] == '"' {
            return Ok((e + 1, string_of(s, a, e)));
        }
    }
    let a = ws_comment(s, st);
    let e = run_of(s, a, 3);
    if e == a {
        return mismatch(pos);
    }
    Ok((e, string_of(s, a, e)))
}

/// The file that `source path` brings in. Where `path` refers to a variable
/// that has no value, nothing is read: the result is a placeholder with the
/// path as written and no entries. Otherwise the substituted path is looked up
/// among the files of `ctx` and parsed; a file that is not there fails the
/// parse, or gives an empty placeholder where `ctx` does not ask to fail.
pub fn resolve_source(path: String, ctx: &Context, depth: usize) -> (r: Result<Kconfig, ErrorKind>)
    ensures
        r matches Ok(k) ==> spec_resolve(path@, *ctx, depth as int) == Ok::<KconfigV, ErrorKind>(kconfig_view(k)),
        r matches Err(kind) ==> spec_resolve(path@, *ctx, depth as int) == Err::<KconfigV, ErrorKind>(kind),
        substitute(path@, dollar_references(path@), vars_view(ctx.file.vars@)) is None ==> (r matches Ok(k)
            && k.file@ == path@ && k.entries@.len() == 0),
        r matches Err(kind) ==> kind.is_fatal(),
        substitute(path@, dollar_references(path@), vars_view(ctx.file.vars@)) matches Some(p) ==> (
        lookup(vars_view(ctx.sources@), p) is None ==> (if ctx.fail_on_missing_source {
            r == Err::<Kconfig, ErrorKind>(ErrorKind::MissingSource)
        } else {
            r matches Ok(k) && k.file@ == p && k.entries@.len() == 0
        })),
    decreases depth, 0int, 0int,
{
    let resolved = match apply_vars(path.as_str(), &ctx.file.vars) {
        Some(p) => p,
        None => {
            let k = Kconfig { file: path, entries: Vec::new() };
            assert(entries_view(k.entries@) =~= Seq::<EntryV>::empty());
            return Ok(k);
        },
    };
    let content = match lookup_var(&ctx.sources, &resolved) {
        Some(k) => &ctx.sources[k].1,
        None => {
            if ctx.fail_on_missing_source {
                return Err(ErrorKind::MissingSource);
            } else {
                let k = Kconfig { file: resolved, entries: Vec::new() };
                assert(entries_view(k.entries@) =~= Seq::<EntryV>::empty());
                return Ok(k);
            }
        },
    };
    if depth == 0 {
        return Err(ErrorKind::SourceTooDeep);
    }
    let text = chars_of(content.as_str());
    if text.len() > usize::MAX / 8 {
        return Err(ErrorKind::SourceFailed);
    }
    match parse_kconfig_text(text.as_slice(), resolved, ctx, depth - 1) {
        Ok(k) => Ok(k),
        Err(err) => if matches!(err.kind, ErrorKind::SourceTooDeep) {
            Err(ErrorKind::SourceTooDeep)
        } else {
            Err(ErrorKind::SourceFailed)
        },
    }
}

/// Reads `source path` and brings in the file it names (see [`resolve_source`]).
pub fn parse_source(s: &[char], pos: usize, ctx: &Context, depth: usize) -> (r: PResult<Source>)
    requires
        pos <= s@.len(),
    ensures
        r matches Ok((e, k)) ==> spec_source(s@, pos as int, *ctx, depth as int) == Outcome::Done(e as int, EntryV::Source(kconfig_view(k))),
        r matches Err(err) ==> err_agrees(err, spec_source(s@, pos as int, *ctx, depth as int)),
        r matches Ok((e, _)) ==> pos < e <= s@.len(),
    decreases depth, s@.len() - pos, 1int,
{
    let kw = match keyword(s, pos, "source") {
        Some(e) => e,
        None => return mismatch(pos),
    };
    let (e, path) = match parse_filepath(s, kw) {
        Ok(x) => x,
        Err(err) => return Err(err),
    };
    match resolve_source(path, ctx, depth) {
        Ok(k) => Ok((e, k)),
        Err(kind) => fail(e, kind),
    }
}

/// Reads one entry, after blanks and comments. The alternatives are tried in
/// this order: config, choice, menuconfig, function definition, mainmenu, if,
/// menu, comment, source, variable assignment, function call. A fatal error
/// of one of them ends the search.
pub fn parse_entry(s: &[char], pos: usize, ctx: &Context, depth: usize) -> (r: PResult<Entry>)
    requires
        pos <= s@.len(),
        s@.len() * 8 <= usize::MAX,
    ensures
        r matches Ok((e, x)) ==> spec_entry(s@, pos as int, *ctx, depth as int) == Outcome::Done(e as int, entry_view(x)),
        r matches Err(err) ==> err_agrees(err, spec_entry(s@, pos as int, *ctx, depth as int)),
        r matches Ok((e, _)) ==> pos <= e <= s@.len(),
    decreases depth, s@.len() - pos, 2int,
{
    let st = ws_comment(s, pos);
    if let Ok((e, x)) = parse_config(s, st) {
        return Ok((e, Entry::Config(x)));
    }
    match parse_choice(s, st, ctx, depth) {
        Ok((e, x)) => return Ok((e, Entry::Choice(x))),
        Err(err) => if err.kind.is_fatal() {
            return Err(err);
        },
    }
    if let Ok((e, x)) = parse_menu_config(s, st) {
        return Ok((e, Entry::MenuConfig(x)));
    }
    if let Ok((e, x)) = parse_function(s, st) {
        return Ok((e, Entry::Function(x)));
    }
    if let Ok((e, x)) = parse_main_menu(s, st) {
        return Ok((e, Entry::MainMenu(x)));
    }
    match parse_if(s, st, ctx, depth) {
        Ok((e, x)) => return Ok((e, Entry::If(x))),
        Err(err) => if err.kind.is_fatal() {
            return Err(err);
        },
    }
    match parse_menu(s, st, ctx, depth) {
        Ok((e, x)) => return Ok((e, Entry::Menu(x))),
        Err(err) => if err.kind.is_fatal() {
            return Err(err);
        },
    }
    if let Ok((e, x)) = parse_comment(s, st) {
        return Ok((e, Entry::Comment(x)));
    }
    match parse_source(s, st, ctx, depth) {
        Ok((e, x)) => return Ok((e, Entry::Source(x))),
        Err(err) => if err.kind.is_fatal() {
            return Err(err);
        },
    }
    if let Ok((e, x)) = parse_variable_assignment(s, st) {
        return Ok((e, Entry::VariableAssignment(x)));
    }
    match parse_function_call(s, st) {
        Ok((e, x)) => Ok((e, Entry::FunctionCall(x))),
        Err(err) => Err(err),
    }
}

} // verus!
