//! Symbols: barewords and quoted constants.

use vstd::prelude::*;
use crate::text::{alnum, is_alnum, lemma_run_end, other_than, run_end, string_of, ws_comment, ws_comment_end};
use crate::{mismatch, PResult};

verus! {

/// An operand of an expression. A bareword (`KVM`, `64BIT`, `7.10.d`) is a
/// non-constant symbol; a quoted text (`"y"`, `'64'`) is a constant symbol and
/// holds the characters between the quotes.
#[derive(Debug, Clone, PartialEq, Eq)]
pub enum Symbol {
    Constant(String),
    NonConstant(String),
}

impl Symbol {
    pub open spec fn text(&self) -> Seq<char> {
        match self {
            Symbol::Constant(t) => t@,
            Symbol::NonConstant(t) => t@,
        }
    }
}

/// The mathematical value of a symbol.
pub enum SymbolV {
    Constant(Seq<char>),
    NonConstant(Seq<char>),
}

pub open spec fn symbol_view(s: Symbol) -> SymbolV {
    match s {
        Symbol::Constant(t) => SymbolV::Constant(t@),
        Symbol::NonConstant(t) => SymbolV::NonConstant(t@),
    }
}

/// A symbol after the blanks and comments at `pos`: a bareword, or else a quoted text.
pub open spec fn spec_symbol(s: Seq<char>, pos: int) -> Option<(int, SymbolV)> {
    let st = ws_comment_end(s, pos);
    if bareword_end(s, pos) > st {
        Some((bareword_end(s, pos), SymbolV::NonConstant(s.subrange(st, bareword_end(s, pos)))))
    } else if quoted_at(s, pos) {
        Some((quote_close(s, pos) + 1, SymbolV::Constant(s.subrange(st + 1, quote_close(s, pos)))))
    } else {
        None
    }
}

/// A character of a bareword symbol.
pub open spec fn is_symbol_char(c: char) -> bool {
    is_alnum(c) || c == '.' || c == '_'
}

pub open spec fn symbol_chars() -> spec_fn(char) -> bool {
    |c: char| is_symbol_char(c)
}

/// Where the bareword that follows the blanks and comments at `pos` ends.
pub open spec fn bareword_end(s: Seq<char>, pos: int) -> int {
    run_end(s, ws_comment_end(s, pos), symbol_chars())
}

/// Whether a quoted text starts at `pos` after the blanks and comments: a quote with its closing match later on.
pub open spec fn quoted_at(s: Seq<char>, pos: int) -> bool {
    let st = ws_comment_end(s, pos);
    st < s.len() && (s[st] == '"' || s[st] == '\'') && run_end(s, st + 1, other_than(s[st]))
        < s.len()
}

/// The closing quote of a quoted text that starts after the blanks at `pos`.
pub open spec fn quote_close(s: Seq<char>, pos: int) -> int {
    let st = ws_comment_end(s, pos);
    run_end(s, st + 1, other_than(s[st]))
}

/// Reads a bareword symbol after blanks and comments: letters, digits, `.` and `_`.
pub fn parse_constant_symbol(s: &[char], pos: usize) -> (r: PResult<String>)
    requires
        pos <= s@.len(),
    ensures
        r is Ok <==> bareword_end(s@, pos as int) > ws_comment_end(s@, pos as int),
        r matches Ok((e, t)) ==> e == bareword_end(s@, pos as int) && t@ == s@.subrange(
            ws_comment_end(s@, pos as int),
            e as int,
        ),
        r matches Err(err) ==> err.kind is Mismatch,
        crate::consumes(r, s@, pos as int),
{
    let st = ws_comment(s, pos);
    let mut i = st;
    while i < s.len() && (alnum(s[i]) || s[i] == '.' || s[i] == '_')
        invariant
            st <= i <= s@.len(),
            run_end(s@, i as int, symbol_chars()) == bareword_end(s@, pos as int),
            st == ws_comment_end(s@, pos as int),
        decreases s@.len() - i,
    {
        i += 1;
    }
    proof {
        lemma_run_end(s@, st as int, symbol_chars());
    }
    if i == st {
        return mismatch(pos);
    }
    Ok((i, string_of(s, st, i)))
}

/// The position of the first `q` at or after `pos`, or the end of `s`.
pub fn find_char(s: &[char], pos: usize, q: char) -> (r: usize)
    requires
        pos <= s@.len(),
    ensures
        r == run_end(s@, pos as int, other_than(q)),
        pos <= r <= s@.len(),
        r < s@.len() ==> s@[r as int] == q,
{
    let mut i = pos;
    while i < s.len() && s[i] != q
        invariant
            pos <= i <= s@.len(),
            run_end(s@, i as int, other_than(q)) == run_end(s@, pos as int, other_than(q)),
        decreases s@.len() - i,
    {
        i += 1;
    }
    proof {
        lemma_run_end(s@, pos as int, other_than(q));
    }
    i
}

/// Reads a symbol after blanks and comments: a bareword, or a text between
/// double or single quotes.
pub fn parse_symbol(s: &[char], pos: usize) -> (r: PResult<Symbol>)
    requires
        pos <= s@.len(),
    ensures
        r is Ok <==> (bareword_end(s@, pos as int) > ws_comment_end(s@, pos as int) || quoted_at(
            s@,
            pos as int,
        )),
        r matches Ok((e, sym)) ==> {
            let st = ws_comment_end(s@, pos as int);
            if bareword_end(s@, pos as int) > st {
                &&& sym is NonConstant
                &&& e == bareword_end(s@, pos as int)
                &&& sym.text() == s@.subrange(st, e as int)
            } else {
                &&& sym is Constant
                &&& e == quote_close(s@, pos as int) + 1
                &&& sym.text() == s@.subrange(st + 1, quote_close(s@, pos as int))
            }
        },
        r matches Err(err) ==> err.kind is Mismatch,
        crate::consumes(r, s@, pos as int),
        r matches Ok((e, sym)) ==> spec_symbol(s@, pos as int) == Some((e as int, symbol_view(sym))),
        r is Err ==> spec_symbol(s@, pos as int) is None,
{
    match parse_constant_symbol(s, pos) {
        Ok((e, t)) => Ok((e, Symbol::NonConstant(t))),
        Err(_) => {
            let st = ws_comment(s, pos);
            if st < s.len() && (s[st] == '"' || s[st] == '\'') {
                let q = s[st];
                let close = find_char(s, st + 1, q);
                if close < s.len() {
                    let t = string_of(s, st + 1, close);
                    return Ok((close + 1, Symbol::Constant(t)));
                }
            }
            mismatch(pos)
        },
    }
}

} // verus!
