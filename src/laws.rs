//! Laws of the grammar: how `&&` and `||` group plain symbols, how printed
//! symbols and expressions read back, what `depends on` makes of its blanks, and
//! that a parse is determined by its input.

use vstd::prelude::*;
use crate::expression::{
    and_rest, doubled_at, or_rest, spec_and, spec_atom, spec_compare, spec_compare_op,
    spec_number_or_symbol, spec_or, spec_parenthesis, spec_string, spec_term, string_at, AndV,
    AtomV, OrV, TermV,
};
use crate::function::{call_open_at, spec_call};
use crate::number::{number_at, number_end};
use crate::symbol::{bareword_end, is_symbol_char, spec_symbol, symbol_chars, SymbolV};
use crate::attribute::spec_depends_on;
use crate::display::{operator_text, symbol_text};
use crate::expression::{
    and_view, ands_view, atom_view, or_view, term_view, terms_view, AndExpression, Atom,
    OrExpression, Term,
};
use crate::function::{
    call_view, params_view, token_view, tokens_view, CallV, ExpressionToken, FunctionCall,
    Parameter, TokenV,
};
use crate::number::decimal_text;
use crate::symbol::{quoted_at, quote_close, symbol_view, Symbol};
use crate::text::other_than;
use crate::entry::kconfig_view;
use crate::kconfig::{parse_agrees, Kconfig};
use crate::text::{has_tag, is_blank, run_end, ws_comment_end, wsi_end};
use crate::{Context, ParseError};

verus! {

/// A bareword that is not a decimal integer: it parses as a symbol.
pub open spec fn plain_symbol(w: Seq<char>) -> bool {
    &&& w.len() > 0
    &&& forall|i: int| 0 <= i < w.len() ==> is_symbol_char(#[trigger] w[i])
    &&& !(number_at(w, 0) && number_end(w, 0) == w.len())
}

/// The term that a plain symbol parses to.
pub open spec fn symbol_term(w: Seq<char>) -> TermV {
    TermV::Atom(AtomV::Symbol(SymbolV::NonConstant(w)))
}

/// ` && w1 && w2 ...` (or the same with `||`): each word preceded by the operator between spaces.
pub open spec fn op_tail(ws: Seq<Seq<char>>, op: char) -> Seq<char>
    decreases ws.len(),
{
    if ws.len() == 0 {
        Seq::empty()
    } else {
        seq![' ', op, op, ' '] + ws[0] + op_tail(ws.subrange(1, ws.len() as int), op)
    }
}

/// The words joined by ` && `.
pub open spec fn and_text(ws: Seq<Seq<char>>) -> Seq<char> {
    ws[0] + op_tail(ws.subrange(1, ws.len() as int), '&')
}

/// What a group of words joined by ` && ` parses to: the term alone, or the list of terms.
pub open spec fn and_group(ws: Seq<Seq<char>>) -> AndV {
    if ws.len() == 1 {
        AndV::Term(symbol_term(ws[0]))
    } else {
        AndV::Expression(ws.map_values(|w: Seq<char>| symbol_term(w)))
    }
}

/// ` || g1 || g2 ...` where each group is a ` && `-joined list of words.
pub open spec fn or_tail(gs: Seq<Seq<Seq<char>>>) -> Seq<char>
    decreases gs.len(),
{
    if gs.len() == 0 {
        Seq::empty()
    } else {
        seq![' ', '|', '|', ' '] + and_text(gs[0]) + or_tail(gs.subrange(1, gs.len() as int))
    }
}

/// The groups joined by ` || `.
pub open spec fn or_text(gs: Seq<Seq<Seq<char>>>) -> Seq<char> {
    and_text(gs[0]) + or_tail(gs.subrange(1, gs.len() as int))
}

/// Each group is a non-empty list of plain symbols.
pub open spec fn plain_groups(gs: Seq<Seq<Seq<char>>>) -> bool {
    forall|i: int|
        0 <= i < gs.len() ==> (#[trigger] gs[i]).len() >= 1 && forall|j: int|
            0 <= j < gs[i].len() ==> plain_symbol(#[trigger] gs[i][j])
}

/// Where the text after a word may go on: the end, or a space and an operator.
pub open spec fn word_boundary(s: Seq<char>, q: int) -> bool {
    q == s.len() || (0 <= q && q + 1 < s.len() && s[q] == ' ' && (s[q + 1] == '&' || s[q + 1]
        == '|'))
}

/// The pieces of a text that `s[p..q]` is made of, in place.
proof fn lemma_split(s: Seq<char>, p: int, q: int, a: Seq<char>, b: Seq<char>, c: Seq<char>)
    requires
        0 <= p <= q <= s.len(),
        s.subrange(p, q) == a + b + c,
    ensures
        q - p == a.len() + b.len() + c.len(),
        s.subrange(p + a.len(), p + a.len() + b.len()) == b,
        s.subrange(p + a.len() + b.len(), q) == c,
        forall|k: int| 0 <= k < a.len() ==> s[p + k] == #[trigger] a[k],
        b.len() > 0 ==> s[p + a.len()] == b[0],
        c.len() > 1 ==> s[p + a.len() + b.len()] == c[0] && s[p + a.len() + b.len() + 1] == c[1],
{
    let x = a + b + c;
    assert(s.subrange(p, q).len() == x.len());
    assert forall|k: int| 0 <= k < x.len() implies s[p + k] == #[trigger] x[k] by {
        assert(s.subrange(p, q)[k] == s[p + k]);
    }
    assert forall|k: int| 0 <= k < a.len() implies s[p + k] == #[trigger] a[k] by {
        assert(x[k] == a[k]);
    }
    assert(s.subrange(p + a.len(), p + a.len() + b.len()) =~= b) by {
        assert forall|k: int| 0 <= k < b.len() implies s.subrange(p + a.len(), p + a.len() + b.len())[k] == b[k] by {
            assert(x[a.len() + k] == b[k]);
        }
    }
    assert(s.subrange(p + a.len() + b.len(), q) =~= c) by {
        assert forall|k: int| 0 <= k < c.len() implies s.subrange(p + a.len() + b.len(), q)[k] == c[k] by {
            assert(x[a.len() + b.len() + k] == c[k]);
        }
    }
    if b.len() > 0 {
        assert(x[a.len() as int] == b[0]);
    }
    if c.len() > 1 {
        assert(x[(a.len() + b.len()) as int] == c[0]);
        assert(x[(a.len() + b.len() + 1) as int] == c[1]);
    }
}

/// A plain symbol at `a` followed by a boundary parses as a symbol term.
proof fn lemma_symbol_term(s: Seq<char>, a: int, w: Seq<char>)
    requires
        0 <= a,
        a + w.len() <= s.len(),
        s.subrange(a, a + w.len()) == w,
        plain_symbol(w),
        word_boundary(s, a + w.len()),
    ensures
        spec_term(s, a) == Some((a + w.len(), symbol_term(w))),
{
    let e = a + w.len();
    assert forall|k: int| a <= k < e implies is_symbol_char(#[trigger] s[k]) by {
        assert(s[k] == s.subrange(a, e)[k - a]);
    }
    assert(s[a] == w[0]);
    assert(ws_comment_end(s, a) == a);
    lemma_run_with(s, a, w.len() as int, symbol_chars());
    assert(bareword_end(s, a) == e);
    assert(spec_symbol(s, a) == Some((e, SymbolV::NonConstant(w))));
    assert(wsi_end(s, a) == a);
    if e < s.len() {
        assert(wsi_end(s, e + 1) == e + 1);
        assert(wsi_end(s, e) == e + 1);
    }
    assert(spec_compare_op(s, wsi_end(s, e)) is None);
    assert(spec_compare(s, a) is None);
    assert(!call_open_at(s, a));
    assert(spec_call(s, a) is None);
    assert(spec_parenthesis(s, a) is None);
    assert(!string_at(s, a));
    assert(spec_string(s, a) is None);
    assert(spec_number_or_symbol(s, a) == Some((e, AtomV::Symbol(SymbolV::NonConstant(w)))));
    assert(spec_atom(s, a) == Some((e, AtomV::Symbol(SymbolV::NonConstant(w)))));
}

/// The operator `c c` between spaces at `p`, then a word.
proof fn lemma_operator(s: Seq<char>, p: int, c: char)
    requires
        0 <= p,
        p + 4 < s.len(),
        s[p] == ' ',
        s[p + 1] == c,
        s[p + 2] == c,
        s[p + 3] == ' ',
        c == '&' || c == '|',
        is_symbol_char(s[p + 4]),
    ensures
        doubled_at(s, p, c),
        wsi_end(s, p) == p + 1,
        wsi_end(s, wsi_end(s, p) + 2) == p + 4,
{
    assert(wsi_end(s, p + 1) == p + 1);
    assert(wsi_end(s, p + 4) == p + 4);
    assert(wsi_end(s, p + 3) == p + 4);
}

/// After ` && w1 && w2 ...` ending at a boundary, `and_rest` reads all the words.
proof fn lemma_and_tail(s: Seq<char>, p: int, q: int, ws: Seq<Seq<char>>)
    requires
        0 <= p <= q <= s.len(),
        s.subrange(p, q) == op_tail(ws, '&'),
        forall|j: int| 0 <= j < ws.len() ==> plain_symbol(#[trigger] ws[j]),
        q == s.len() || (q + 1 < s.len() && s[q] == ' ' && s[q + 1] == '|'),
    ensures
        and_rest(s, p) == (q, ws.map_values(|w: Seq<char>| symbol_term(w))),
    decreases ws.len(),
{
    if ws.len() == 0 {
        assert(s.subrange(p, q).len() == 0);
        assert(p == q);
        if q < s.len() {
            assert(wsi_end(s, p + 1) == p + 1);
        }
        assert(!doubled_at(s, p, '&'));
        assert(ws.map_values(|w: Seq<char>| symbol_term(w)) =~= Seq::<TermV>::empty());
    } else {
        let w = ws[0];
        let rest = ws.subrange(1, ws.len() as int);
        let tail = op_tail(rest, '&');
        let e = p + 4 + w.len();
        let op = seq![' ', '&', '&', ' '];
        assert(op_tail(ws, '&') == op + w + tail);
        assert(plain_symbol(w));
        lemma_split(s, p, q, op, w, tail);
        assert(op[0] == ' ' && op[1] == '&' && op[2] == '&' && op[3] == ' ');
        if rest.len() > 0 {
            assert(tail == seq![' ', '&', '&', ' '] + rest[0] + op_tail(rest.subrange(1, rest.len() as int), '&'));
            assert(tail[0] == ' ' && tail[1] == '&');
        } else {
            assert(e == q);
        }
        lemma_operator(s, p, '&');
        lemma_symbol_term(s, p + 4, w);
        lemma_and_tail(s, e, q, rest);
        assert(ws.map_values(|w: Seq<char>| symbol_term(w)) =~= seq![symbol_term(w)]
            + rest.map_values(|w: Seq<char>| symbol_term(w)));
    }
}

/// A group of words joined by ` && `, ending at the end or before ` ||`, parses to `and_group`.
proof fn lemma_and_group(s: Seq<char>, a: int, q: int, ws: Seq<Seq<char>>)
    requires
        0 <= a <= q <= s.len(),
        ws.len() >= 1,
        s.subrange(a, q) == and_text(ws),
        forall|j: int| 0 <= j < ws.len() ==> plain_symbol(#[trigger] ws[j]),
        q == s.len() || (q + 1 < s.len() && s[q] == ' ' && s[q + 1] == '|'),
    ensures
        spec_and(s, a) == Some((q, and_group(ws))),
{
    let w = ws[0];
    let rest = ws.subrange(1, ws.len() as int);
    let e = a + w.len();
    assert(plain_symbol(w));
    lemma_split(s, a, q, Seq::empty(), w, op_tail(rest, '&'));
    assert(Seq::<char>::empty() + w + op_tail(rest, '&') =~= and_text(ws));
    assert(wsi_end(s, a) == a);
    if rest.len() > 0 {
        assert(op_tail(rest, '&') == seq![' ', '&', '&', ' '] + rest[0] + op_tail(rest.subrange(1, rest.len() as int), '&'));
    } else {
        assert(e == q);
    }
    lemma_symbol_term(s, a, w);
    lemma_and_tail(s, e, q, rest);
    if ws.len() > 1 {
        assert(ws.map_values(|w: Seq<char>| symbol_term(w)) =~= seq![symbol_term(w)]
            + rest.map_values(|w: Seq<char>| symbol_term(w)));
    }
}

/// After ` || g1 || g2 ...`, `or_rest` reads all the groups.
proof fn lemma_or_tail(s: Seq<char>, p: int, gs: Seq<Seq<Seq<char>>>)
    requires
        0 <= p <= s.len(),
        s.subrange(p, s.len() as int) == or_tail(gs),
        plain_groups(gs),
    ensures
        or_rest(s, p) == (s.len() as int, gs.map_values(|g: Seq<Seq<char>>| and_group(g))),
    decreases gs.len(),
{
    if gs.len() == 0 {
        assert(s.subrange(p, s.len() as int).len() == 0);
        assert(p == s.len());
        assert(!doubled_at(s, p, '|'));
        assert(gs.map_values(|g: Seq<Seq<char>>| and_group(g)) =~= Seq::<AndV>::empty());
    } else {
        let g = gs[0];
        let rest = gs.subrange(1, gs.len() as int);
        let tail = or_tail(rest);
        let e = p + 4 + and_text(g).len();
        let n = s.len() as int;
        let op = seq![' ', '|', '|', ' '];
        assert(or_tail(gs) == op + and_text(g) + tail);
        assert(g.len() >= 1);
        assert(plain_symbol(g[0]));
        lemma_split(s, p, n, op, and_text(g), tail);
        assert(op[0] == ' ' && op[1] == '|' && op[2] == '|' && op[3] == ' ');
        assert(and_text(g)[0] == g[0][0]);
        if rest.len() > 0 {
            assert(tail == seq![' ', '|', '|', ' '] + and_text(rest[0]) + or_tail(rest.subrange(1, rest.len() as int)));
            assert(tail[0] == ' ' && tail[1] == '|');
        } else {
            assert(e == n);
        }
        lemma_operator(s, p, '|');
        assert forall|j: int| 0 <= j < g.len() implies plain_symbol(#[trigger] g[j]) by {
            assert(gs[0] == g);
        }
        lemma_and_group(s, p + 4, e, g);
        assert(plain_groups(rest)) by {
            assert forall|i: int| 0 <= i < rest.len() implies (#[trigger] rest[i]).len() >= 1 && forall|j: int|
                0 <= j < rest[i].len() ==> plain_symbol(#[trigger] rest[i][j]) by {
                assert(rest[i] == gs[i + 1]);
            }
        }
        lemma_or_tail(s, e, rest);
        assert(gs.map_values(|g: Seq<Seq<char>>| and_group(g)) =~= seq![and_group(g)]
            + rest.map_values(|g: Seq<Seq<char>>| and_group(g)));
    }
}

/// `N` plain symbols joined by `&&` parse to one list of exactly `N` terms, in
/// order and not nested; a single symbol stands alone, with no list around it.
pub proof fn law_and_chain(ws: Seq<Seq<char>>)
    requires
        ws.len() >= 1,
        forall|j: int| 0 <= j < ws.len() ==> plain_symbol(#[trigger] ws[j]),
    ensures
        spec_and(and_text(ws), 0) == Some((and_text(ws).len() as int, and_group(ws))),
        ws.len() == 1 ==> spec_and(and_text(ws), 0) == Some((and_text(ws).len() as int, AndV::Term(symbol_term(ws[0])))),
        ws.len() >= 2 ==> (and_group(ws) matches AndV::Expression(v) && v.len() == ws.len()),
{
    let s = and_text(ws);
    assert(s.subrange(0, s.len() as int) =~= s);
    lemma_and_group(s, 0, s.len() as int, ws);
}

proof fn lemma_or_unfold(s: Seq<char>, e: int, first: AndV, rv: Seq<AndV>)
    requires
        0 < e <= s.len(),
        wsi_end(s, 0) == 0,
        spec_and(s, 0) == Some((e, first)),
        or_rest(s, e) == (s.len() as int, rv),
    ensures
        spec_or(s, 0) == Some((s.len() as int, if rv.len() == 0 {
            OrV::Term(first)
        } else {
            OrV::Expression(seq![first] + rv)
        })),
{
}

/// The groups after the first of a list of plain groups are plain groups.
proof fn lemma_plain_rest(gs: Seq<Seq<Seq<char>>>)
    requires
        gs.len() >= 1,
        plain_groups(gs),
    ensures
        plain_groups(gs.subrange(1, gs.len() as int)),
        forall|j: int| 0 <= j < gs[0].len() ==> plain_symbol(#[trigger] gs[0][j]),
        gs[0].len() >= 1,
{
    let rest = gs.subrange(1, gs.len() as int);
    assert forall|i: int| 0 <= i < rest.len() implies (#[trigger] rest[i]).len() >= 1 && forall|j: int|
        0 <= j < rest[i].len() ==> plain_symbol(#[trigger] rest[i][j]) by {
        assert(rest[i] == gs[i + 1]);
    }
}

/// The text of the groups splits into the first group and the tail.
proof fn lemma_or_text_split(gs: Seq<Seq<Seq<char>>>)
    requires
        gs.len() >= 1,
        plain_groups(gs),
    ensures
        ({
            let s = or_text(gs);
            let e = and_text(gs[0]).len() as int;
            let rest = gs.subrange(1, gs.len() as int);
            &&& 0 < e <= s.len()
            &&& s.subrange(0, e) == and_text(gs[0])
            &&& s.subrange(e, s.len() as int) == or_tail(rest)
            &&& wsi_end(s, 0) == 0
            &&& (e == s.len() || (e + 1 < s.len() && s[e] == ' ' && s[e + 1] == '|'))
        }),
{
    let s = or_text(gs);
    let n = s.len() as int;
    let g = gs[0];
    let rest = gs.subrange(1, gs.len() as int);
    let e = and_text(g).len() as int;
    lemma_plain_rest(gs);
    assert(plain_symbol(g[0]));
    assert(s.subrange(0, n) =~= s);
    lemma_split(s, 0, n, Seq::empty(), and_text(g), or_tail(rest));
    assert(Seq::<char>::empty() + and_text(g) + or_tail(rest) =~= s);
    assert(and_text(g)[0] == g[0][0]);
    assert(wsi_end(s, 0) == 0);
    if rest.len() > 0 {
        assert(or_tail(rest) == seq![' ', '|', '|', ' '] + and_text(rest[0]) + or_tail(rest.subrange(1, rest.len() as int)));
    }
}

/// In expressions of plain symbols joined by `&&` and `||` without
/// parentheses, `&&` binds tighter: the text parses as an `||`-list of
/// `&&`-groups, each collapsed to a single term where it has one symbol, and the
/// `||`-list itself collapsed where there is a single group.
pub proof fn law_and_binds_tighter(gs: Seq<Seq<Seq<char>>>)
    requires
        gs.len() >= 1,
        plain_groups(gs),
    ensures
        spec_or(or_text(gs), 0) == Some((or_text(gs).len() as int, if gs.len() == 1 {
            OrV::Term(and_group(gs[0]))
        } else {
            OrV::Expression(gs.map_values(|g: Seq<Seq<char>>| and_group(g)))
        })),
{
    let s = or_text(gs);
    let n = s.len() as int;
    let g = gs[0];
    let rest = gs.subrange(1, gs.len() as int);
    let e = and_text(g).len() as int;
    lemma_or_text_split(gs);
    lemma_plain_rest(gs);
    let mapped = rest.map_values(|g: Seq<Seq<char>>| and_group(g));
    assert(spec_and(s, 0) == Some((e, and_group(g)))) by {
        lemma_and_group(s, 0, e, g);
    }
    assert(or_rest(s, e) == (n, mapped)) by {
        lemma_or_tail(s, e, rest);
    }
    lemma_or_unfold(s, e, and_group(g), mapped);
    if gs.len() > 1 {
        assert(gs.map_values(|g: Seq<Seq<char>>| and_group(g)) =~= seq![and_group(g)] + mapped);
    } else {
        assert(mapped.len() == 0);
    }
}

proof fn lemma_blank_gap(s: Seq<char>, a: int, g: int)
    requires
        0 <= a <= g < s.len(),
        forall|k: int| a <= k < g ==> is_blank(#[trigger] s[k]),
        !is_blank(s[g]),
        s[g] != '\\',
    ensures
        wsi_end(s, a) == g,
    decreases g - a,
{
    if a < g {
        lemma_blank_gap(s, a + 1, g);
    }
}

/// The blanks between `depends` and `on` may be spaces or tabs, in any number:
/// either way the attribute is the expression that follows `on`.
pub proof fn law_depends_on_gap(s: Seq<char>, pos: int, g: int)
    requires
        0 <= pos,
        pos + 7 < g,
        g + 2 <= s.len(),
        has_tag(s, pos, "depends"@),
        forall|k: int| pos + 7 <= k < g ==> is_blank(#[trigger] s[k]),
        s[g] == 'o',
        s[g + 1] == 'n',
    ensures
        spec_depends_on(s, pos) == spec_or(s, wsi_end(s, g + 2)),
{
    reveal_strlit("depends");
    reveal_strlit("on");
    lemma_blank_gap(s, pos + 7, g);
    assert(s.subrange(g, g + 2) =~= "on"@);
}

/// Parsing the same text twice with the same context, the files that
/// `source` reads included, gives the same outcome: both fail with errors of
/// the same kind, or both succeed with equal trees.
pub proof fn law_same_input_same_tree(
    content: Seq<char>,
    ctx: Context,
    first: Result<Kconfig, ParseError>,
    second: Result<Kconfig, ParseError>,
)
    requires
        parse_agrees(first, content, ctx),
        parse_agrees(second, content, ctx),
    ensures
        first is Ok <==> second is Ok,
        first matches Ok(k1) ==> (second matches Ok(k2) && kconfig_view(k1) == kconfig_view(k2)),
        first matches Err(e1) ==> (second matches Err(e2) && e1.kind == e2.kind),
{
}

proof fn lemma_run_with(s: Seq<char>, a: int, n: int, p: spec_fn(char) -> bool)
    requires
        0 <= a,
        0 <= n,
        a + n <= s.len(),
        forall|k: int| a <= k < a + n ==> p(#[trigger] s[k]),
        a + n == s.len() || !p(s[a + n]),
    ensures
        run_end(s, a, p) == a + n,
    decreases n,
{
    if n > 0 {
        lemma_run_with(s, a + 1, n - 1, p);
    }
}

/// A symbol that its text stands for: a non-empty bareword of symbol
/// characters, or a constant without a double quote in it.
pub open spec fn printable_symbol(sym: Symbol) -> bool {
    match sym {
        Symbol::NonConstant(t) => t@.len() > 0 && forall|i: int|
            0 <= i < t@.len() ==> is_symbol_char(#[trigger] t@[i]),
        Symbol::Constant(t) => forall|i: int| 0 <= i < t@.len() ==> #[trigger] t@[i] != '"',
    }
}

/// Printing a symbol and reading the text back gives the same symbol.
pub proof fn law_symbol_round_trip(sym: Symbol)
    requires
        printable_symbol(sym),
    ensures
        spec_symbol(symbol_text(sym), 0) == Some((symbol_text(sym).len() as int, symbol_view(sym))),
{
    reveal_strlit("\"");
    let s = symbol_text(sym);
    match sym {
        Symbol::NonConstant(t) => {
            assert(s == t@);
            assert(ws_comment_end(s, 0) == 0);
            lemma_run_with(s, 0, s.len() as int, symbol_chars());
            assert(s.subrange(0, s.len() as int) =~= s);
        },
        Symbol::Constant(t) => {
            let n = t@.len() as int;
            assert(s =~= seq!['"'] + t@ + seq!['"']);
            assert(s[0] == '"');
            assert(ws_comment_end(s, 0) == 0);
            assert(!is_symbol_char(s[0]));
            assert(bareword_end(s, 0) == 0);
            assert forall|k: int| 1 <= k < 1 + n implies other_than('"')(#[trigger] s[k]) by {
                assert(s[k] == t@[k - 1]);
            }
            assert(s[1 + n] == '"');
            lemma_run_with(s, 1, n, other_than('"'));
            assert(quote_close(s, 0) == 1 + n);
            assert(quoted_at(s, 0));
            assert(s.subrange(1, 1 + n) =~= t@);
        },
    }
}

pub open spec fn symbol_text_v(s: SymbolV) -> Seq<char> {
    match s {
        SymbolV::NonConstant(t) => t,
        SymbolV::Constant(t) => "\""@ + t + "\""@,
    }
}

/// The text of an atom's value, as `to_string` writes the atom.
pub open spec fn atom_text_v(a: AtomV) -> Seq<char>
    decreases a,
{
    match a {
        AtomV::Symbol(s) => symbol_text_v(s),
        AtomV::Number(n) => decimal_text(n),
        AtomV::Compare(l, o, r) => symbol_text_v(l) + " "@ + operator_text(o) + " "@ + symbol_text_v(r),
        AtomV::Function(f) => call_text_v(f),
        AtomV::Parenthesis(e) => "("@ + or_text_v(*e) + ")"@,
        AtomV::String(t) => "\""@ + t + "\""@,
    }
}

pub open spec fn term_text_v(t: TermV) -> Seq<char>
    decreases t,
{
    match t {
        TermV::Not(a) => "!"@ + atom_text_v(a),
        TermV::Atom(a) => atom_text_v(a),
    }
}

pub open spec fn terms_text_v(ts: Seq<TermV>) -> Seq<char>
    decreases ts,
{
    if ts.len() == 0 {
        Seq::empty()
    } else if ts.len() == 1 {
        term_text_v(ts[0])
    } else {
        terms_text_v(ts.subrange(0, ts.len() - 1)) + " && "@ + term_text_v(ts[ts.len() - 1])
    }
}

pub open spec fn and_text_v(e: AndV) -> Seq<char>
    decreases e,
{
    match e {
        AndV::Term(t) => term_text_v(t),
        AndV::Expression(v) => terms_text_v(v),
    }
}

pub open spec fn ands_text_v(es: Seq<AndV>) -> Seq<char>
    decreases es,
{
    if es.len() == 0 {
        Seq::empty()
    } else if es.len() == 1 {
        and_text_v(es[0])
    } else {
        ands_text_v(es.subrange(0, es.len() - 1)) + " || "@ + and_text_v(es[es.len() - 1])
    }
}

/// The text of an expression's value, as `to_string` writes the expression.
pub open spec fn or_text_v(e: OrV) -> Seq<char>
    decreases e,
{
    match e {
        OrV::Term(a) => and_text_v(a),
        OrV::Expression(v) => ands_text_v(v),
    }
}

pub open spec fn token_text_v(t: TokenV) -> Seq<char>
    decreases t,
{
    match t {
        TokenV::Literal(s) => s,
        TokenV::Variable(v) => "$"@ + v,
        TokenV::DoubleQuotes(v) => "\""@ + tokens_text_v(v) + "\""@,
        TokenV::SingleQuotes(s) => "'"@ + s + "'"@,
        TokenV::Backtick(s) => "`"@ + s + "`"@,
        TokenV::Function(f) => call_text_v(f),
        TokenV::Space => " "@,
    }
}

pub open spec fn tokens_text_v(ts: Seq<TokenV>) -> Seq<char>
    decreases ts,
{
    if ts.len() == 0 {
        Seq::empty()
    } else {
        tokens_text_v(ts.subrange(0, ts.len() - 1)) + token_text_v(ts[ts.len() - 1])
    }
}

pub open spec fn params_text_v(ps: Seq<Seq<TokenV>>) -> Seq<char>
    decreases ps,
{
    if ps.len() == 0 {
        Seq::empty()
    } else if ps.len() == 1 {
        tokens_text_v(ps[0])
    } else {
        params_text_v(ps.subrange(0, ps.len() - 1)) + ", "@ + tokens_text_v(ps[ps.len() - 1])
    }
}

pub open spec fn call_text_v(f: CallV) -> Seq<char>
    decreases f,
{
    if f.parameters.len() == 0 {
        "$("@ + f.name + ")"@
    } else {
        "$("@ + f.name + ", "@ + params_text_v(f.parameters) + ")"@
    }
}

proof fn lemma_view_lengths()
    ensures
        forall|ts: Seq<Term>| #[trigger] terms_view(ts).len() == ts.len(),
        forall|es: Seq<AndExpression>| #[trigger] ands_view(es).len() == es.len(),
        forall|ts: Seq<ExpressionToken>| #[trigger] tokens_view(ts).len() == ts.len(),
        forall|ps: Seq<Parameter>| #[trigger] params_view(ps).len() == ps.len(),
{
    assert forall|ts: Seq<Term>| #[trigger] terms_view(ts).len() == ts.len() by {
        lemma_terms_len(ts);
    }
    assert forall|es: Seq<AndExpression>| #[trigger] ands_view(es).len() == es.len() by {
        lemma_ands_len(es);
    }
    assert forall|ts: Seq<ExpressionToken>| #[trigger] tokens_view(ts).len() == ts.len() by {
        lemma_tokens_len(ts);
    }
    assert forall|ps: Seq<Parameter>| #[trigger] params_view(ps).len() == ps.len() by {
        lemma_params_len(ps);
    }
}

proof fn lemma_terms_len(ts: Seq<Term>)
    ensures
        terms_view(ts).len() == ts.len(),
    decreases ts.len(),
{
    if ts.len() > 0 {
        lemma_terms_len(ts.subrange(0, ts.len() - 1));
    }
}

proof fn lemma_ands_len(es: Seq<AndExpression>)
    ensures
        ands_view(es).len() == es.len(),
    decreases es.len(),
{
    if es.len() > 0 {
        lemma_ands_len(es.subrange(0, es.len() - 1));
    }
}

proof fn lemma_tokens_len(ts: Seq<ExpressionToken>)
    ensures
        tokens_view(ts).len() == ts.len(),
    decreases ts.len(),
{
    if ts.len() > 0 {
        lemma_tokens_len(ts.subrange(0, ts.len() - 1));
    }
}

proof fn lemma_params_len(ps: Seq<Parameter>)
    ensures
        params_view(ps).len() == ps.len(),
    decreases ps.len(),
{
    if ps.len() > 0 {
        lemma_params_len(ps.subrange(0, ps.len() - 1));
    }
}

/// The text that `to_string` gives for an atom depends on its value alone.
proof fn lemma_atom_text(a: Atom)
    ensures
        crate::display::atom_text(a) == atom_text_v(atom_view(a)),
    decreases a,
{
    match a {
        Atom::Function(f) => lemma_call_text(f),
        Atom::Parenthesis(e) => lemma_or_text(*e),
        _ => {},
    }
}

proof fn lemma_term_text(t: Term)
    ensures
        crate::display::term_text(t) == term_text_v(term_view(t)),
    decreases t,
{
    match t {
        Term::Not(a) => lemma_atom_text(a),
        Term::Atom(a) => lemma_atom_text(a),
    }
}

proof fn lemma_terms_text(ts: Seq<Term>)
    ensures
        crate::display::terms_text(ts) == terms_text_v(terms_view(ts)),
    decreases ts,
{
    lemma_view_lengths();
    if ts.len() > 0 {
        let pre = ts.subrange(0, ts.len() - 1);
        let v = terms_view(ts);
        lemma_terms_text(pre);
        lemma_term_text(ts[ts.len() - 1]);
        assert(v.subrange(0, v.len() - 1) =~= terms_view(pre));
        if ts.len() == 1 {
            assert(v[0] == term_view(ts[0]));
        }
    }
}

proof fn lemma_and_text(e: AndExpression)
    ensures
        crate::display::and_text(e) == and_text_v(and_view(e)),
    decreases e,
{
    match e {
        AndExpression::Term(t) => lemma_term_text(t),
        AndExpression::Expression(v) => lemma_terms_text(v@),
    }
}

proof fn lemma_ands_text(es: Seq<AndExpression>)
    ensures
        crate::display::ands_text(es) == ands_text_v(ands_view(es)),
    decreases es,
{
    lemma_view_lengths();
    if es.len() > 0 {
        let pre = es.subrange(0, es.len() - 1);
        let v = ands_view(es);
        lemma_ands_text(pre);
        lemma_and_text(es[es.len() - 1]);
        assert(v.subrange(0, v.len() - 1) =~= ands_view(pre));
        if es.len() == 1 {
            assert(v[0] == and_view(es[0]));
        }
    }
}

/// The text that `to_string` gives for an expression depends on its value alone.
pub proof fn lemma_or_text(e: OrExpression)
    ensures
        crate::display::or_text(e) == or_text_v(or_view(e)),
    decreases e,
{
    match e {
        OrExpression::Term(a) => lemma_and_text(a),
        OrExpression::Expression(v) => lemma_ands_text(v@),
    }
}

proof fn lemma_token_text(t: ExpressionToken)
    ensures
        crate::display::token_text(t) == token_text_v(token_view(t)),
    decreases t,
{
    match t {
        ExpressionToken::DoubleQuotes(v) => lemma_tokens_text(v@),
        ExpressionToken::Function(f) => lemma_call_text(*f),
        _ => {},
    }
}

proof fn lemma_tokens_text(ts: Seq<ExpressionToken>)
    ensures
        crate::display::tokens_text(ts) == tokens_text_v(tokens_view(ts)),
    decreases ts,
{
    lemma_view_lengths();
    if ts.len() > 0 {
        let pre = ts.subrange(0, ts.len() - 1);
        let v = tokens_view(ts);
        lemma_tokens_text(pre);
        lemma_token_text(ts[ts.len() - 1]);
        assert(v.subrange(0, v.len() - 1) =~= tokens_view(pre));
    }
}

proof fn lemma_params_text(ps: Seq<Parameter>)
    ensures
        crate::display::parameters_text(ps) == params_text_v(params_view(ps)),
    decreases ps,
{
    lemma_view_lengths();
    if ps.len() > 0 {
        let pre = ps.subrange(0, ps.len() - 1);
        let v = params_view(ps);
        lemma_params_text(pre);
        lemma_tokens_text(ps[ps.len() - 1].tokens@);
        assert(crate::display::parameter_text(ps[ps.len() - 1]) == crate::display::tokens_text(ps[ps.len() - 1].tokens@));
        assert(v.subrange(0, v.len() - 1) =~= params_view(pre));
        assert(v[v.len() - 1] == tokens_view(ps[ps.len() - 1].tokens@));
        if ps.len() == 1 {
            assert(v[0] == tokens_view(ps[0].tokens@));
            assert(crate::display::parameter_text(ps[0]) == crate::display::tokens_text(ps[0].tokens@));
        }
    }
}

proof fn lemma_call_text(f: FunctionCall)
    ensures
        crate::display::call_text(f) == call_text_v(call_view(f)),
    decreases f,
{
    lemma_view_lengths();
    lemma_params_text(f.parameters@);
}

proof fn lemma_op_tail_push(xs: Seq<Seq<char>>, w: Seq<char>, op: char)
    ensures
        op_tail(xs.push(w), op) == op_tail(xs, op) + seq![' ', op, op, ' '] + w,
    decreases xs.len(),
{
    if xs.len() == 0 {
        let y = xs.push(w);
        assert(y[0] == w);
        assert(y.subrange(1, 1) =~= Seq::<Seq<char>>::empty());
        assert(op_tail(y.subrange(1, 1), op) == Seq::<char>::empty());
        assert(op_tail(y, op) == seq![' ', op, op, ' '] + w + Seq::<char>::empty());
        assert(op_tail(xs, op) == Seq::<char>::empty());
        assert(op_tail(y, op) =~= op_tail(xs, op) + seq![' ', op, op, ' '] + w);
    } else {
        let rest = xs.subrange(1, xs.len() as int);
        assert(xs.push(w).subrange(1, (xs.len() + 1) as int) =~= rest.push(w));
        lemma_op_tail_push(rest, w, op);
        assert(op_tail(xs.push(w), op) =~= op_tail(xs, op) + seq![' ', op, op, ' '] + w);
    }
}

proof fn lemma_and_group_text(ws: Seq<Seq<char>>)
    requires
        ws.len() >= 1,
    ensures
        terms_text_v(ws.map_values(|w: Seq<char>| symbol_term(w))) == and_text(ws),
    decreases ws.len(),
{
    reveal_strlit(" && ");
    let m = ws.map_values(|w: Seq<char>| symbol_term(w));
    let n = ws.len() as int;
    assert(m[n - 1] == symbol_term(ws[n - 1]));
    assert(term_text_v(symbol_term(ws[n - 1])) == ws[n - 1]);
    assert(" && "@ =~= seq![' ', '&', '&', ' ']);
    if n == 1 {
        assert(ws.subrange(1, 1) =~= Seq::<Seq<char>>::empty());
        assert(op_tail(ws.subrange(1, 1), '&') == Seq::<char>::empty());
        assert(and_text(ws) =~= ws[0]);
    } else {
        let pre = ws.subrange(0, n - 1);
        lemma_and_group_text(pre);
        assert(m.subrange(0, n - 1) =~= pre.map_values(|w: Seq<char>| symbol_term(w)));
        assert(ws.subrange(1, n) =~= pre.subrange(1, n - 1).push(ws[n - 1]));
        lemma_op_tail_push(pre.subrange(1, n - 1), ws[n - 1], '&');
        assert(pre[0] == ws[0]);
        assert(terms_text_v(m) == terms_text_v(m.subrange(0, n - 1)) + " && "@ + term_text_v(m[n - 1]));
        assert(terms_text_v(m) =~= and_text(ws));
    }
}

proof fn lemma_and_group_view_text(ws: Seq<Seq<char>>)
    requires
        ws.len() >= 1,
    ensures
        and_text_v(and_group(ws)) == and_text(ws),
{
    lemma_and_group_text(ws);
    if ws.len() == 1 {
        assert(ws.subrange(1, 1) =~= Seq::<Seq<char>>::empty());
        assert(op_tail(ws.subrange(1, 1), '&') == Seq::<char>::empty());
        assert(and_text(ws) =~= ws[0]);
        assert(term_text_v(symbol_term(ws[0])) == ws[0]);
    }
}

proof fn lemma_or_tail_push(xs: Seq<Seq<Seq<char>>>, g: Seq<Seq<char>>)
    ensures
        or_tail(xs.push(g)) == or_tail(xs) + seq![' ', '|', '|', ' '] + and_text(g),
    decreases xs.len(),
{
    if xs.len() == 0 {
        let y = xs.push(g);
        assert(y[0] == g);
        assert(y.subrange(1, 1) =~= Seq::<Seq<Seq<char>>>::empty());
        assert(or_tail(y.subrange(1, 1)) == Seq::<char>::empty());
        assert(or_tail(y) == seq![' ', '|', '|', ' '] + and_text(g) + Seq::<char>::empty());
        assert(or_tail(xs) == Seq::<char>::empty());
        assert(or_tail(y) =~= or_tail(xs) + seq![' ', '|', '|', ' '] + and_text(g));
    } else {
        let rest = xs.subrange(1, xs.len() as int);
        assert(xs.push(g).subrange(1, (xs.len() + 1) as int) =~= rest.push(g));
        assert(xs.push(g)[0] == xs[0]);
        lemma_or_tail_push(rest, g);
        assert(or_tail(xs.push(g)) =~= or_tail(xs) + seq![' ', '|', '|', ' '] + and_text(g));
    }
}

proof fn lemma_or_groups_text(gs: Seq<Seq<Seq<char>>>)
    requires
        gs.len() >= 1,
        plain_groups(gs),
    ensures
        ands_text_v(gs.map_values(|g: Seq<Seq<char>>| and_group(g))) == or_text(gs),
    decreases gs.len(),
{
    reveal_strlit(" || ");
    let m = gs.map_values(|g: Seq<Seq<char>>| and_group(g));
    let n = gs.len() as int;
    lemma_and_group_view_text(gs[n - 1]);
    assert(m[n - 1] == and_group(gs[n - 1]));
    assert(" || "@ =~= seq![' ', '|', '|', ' ']);
    if n == 1 {
        assert(gs.subrange(1, 1) =~= Seq::<Seq<Seq<char>>>::empty());
        assert(or_tail(gs.subrange(1, 1)) == Seq::<char>::empty());
        assert(or_text(gs) =~= and_text(gs[0]));
    } else {
        let pre = gs.subrange(0, n - 1);
        assert(plain_groups(pre)) by {
            assert forall|i: int| 0 <= i < pre.len() implies (#[trigger] pre[i]).len() >= 1 && forall|j: int|
                0 <= j < pre[i].len() ==> plain_symbol(#[trigger] pre[i][j]) by {
                assert(pre[i] == gs[i]);
            }
        }
        lemma_or_groups_text(pre);
        assert(m.subrange(0, n - 1) =~= pre.map_values(|g: Seq<Seq<char>>| and_group(g)));
        assert(gs.subrange(1, n) =~= pre.subrange(1, n - 1).push(gs[n - 1]));
        lemma_or_tail_push(pre.subrange(1, n - 1), gs[n - 1]);
        assert(pre[0] == gs[0]);
        assert(ands_text_v(m) == ands_text_v(m.subrange(0, n - 1)) + " || "@ + and_text_v(m[n - 1]));
        assert(ands_text_v(m) =~= or_text(gs));
    }
}

/// What an expression of plain symbols joined by `&&` and `||` parses to.
pub open spec fn or_groups(gs: Seq<Seq<Seq<char>>>) -> OrV {
    if gs.len() == 1 {
        OrV::Term(and_group(gs[0]))
    } else {
        OrV::Expression(gs.map_values(|g: Seq<Seq<char>>| and_group(g)))
    }
}

/// Printing an expression of plain symbols joined by `&&` and `||` and
/// parsing the text back gives an expression of the same value.
pub proof fn law_expression_round_trip(gs: Seq<Seq<Seq<char>>>, e: OrExpression)
    requires
        gs.len() >= 1,
        plain_groups(gs),
        or_view(e) == or_groups(gs),
    ensures
        spec_or(crate::display::or_text(e), 0) == Some((crate::display::or_text(e).len() as int, or_view(e))),
{
    lemma_or_text(e);
    lemma_plain_rest(gs);
    lemma_or_groups_text(gs);
    if gs.len() == 1 {
        lemma_and_group_view_text(gs[0]);
        assert(gs.subrange(1, 1) =~= Seq::<Seq<Seq<char>>>::empty());
        assert(or_tail(gs.subrange(1, 1)) == Seq::<char>::empty());
        assert(or_text(gs) =~= and_text(gs[0]));
    }
    law_and_binds_tighter(gs);
}

} // verus!
