//! Help texts, whose extent is set by indentation.

use vstd::prelude::*;
use crate::text::{
    blanks, blanks_end, find_line_end, has_tag, lemma_line_end, lemma_run_end, line_end, run_end,
    string_of, tag, ws_comment, ws_comment_end,
};
use crate::{mismatch, PResult};

verus! {

/// The column reached after the blanks `s[from..to]`: a tab moves to the next multiple of 8, a space moves by one.
pub open spec fn indent_columns(s: Seq<char>, from: int, to: int) -> int
    decreases to - from,
{
    if to <= from {
        0
    } else if s[to - 1] == '\t' {
        (indent_columns(s, from, to - 1) / 8) * 8 + 8
    } else {
        indent_columns(s, from, to - 1) + 1
    }
}

/// The indentation of a line: how many blank characters open it, and the column they reach.
#[derive(Debug, Clone, Copy, PartialEq, Eq, Structural)]
pub struct IndentationLevel {
    pub chars: usize,
    pub computed: usize,
}

proof fn lemma_columns_bound(s: Seq<char>, from: int, to: int)
    requires
        from <= to,
    ensures
        0 <= indent_columns(s, from, to) <= 8 * (to - from),
    decreases to - from,
{
    if to > from {
        lemma_columns_bound(s, from, to - 1);
    }
}

/// The indentation of the line at `pos`: the blanks that open it and their column.
pub fn indentation_level(s: &[char], pos: usize) -> (r: (usize, IndentationLevel))
    requires
        pos <= s@.len(),
        s@.len() * 8 <= usize::MAX,
    ensures
        r.0 == crate::text::blanks_end(s@, pos as int),
        r.1.chars == r.0 - pos,
        r.1.computed == indent_columns(s@, pos as int, r.0 as int),
{
    let e = blanks(s, pos);
    let mut i = pos;
    let mut computed: usize = 0;
    while i < e
        invariant
            pos <= i <= e <= s@.len(),
            s@.len() * 8 <= usize::MAX,
            computed == indent_columns(s@, pos as int, i as int),
        decreases e - i,
    {
        proof {
            lemma_columns_bound(s@, pos as int, i as int);
        }
        if s[i] == '\t' {
            computed = (computed / 8) * 8 + 8;
        } else {
            computed = computed + 1;
        }
        i += 1;
    }
    (e, IndentationLevel { chars: e - pos, computed })
}

/// The start of the first line from `pos` on that is not empty (blanks and a line break).
pub open spec fn first_content_line(s: Seq<char>, pos: int) -> int
    decreases s.len() - pos,
{
    let b = blanks_end(s, pos);
    if 0 <= pos <= b && b < s.len() && s[b] == '\n' {
        first_content_line(s, b + 1)
    } else {
        pos
    }
}

/// The indentation of the first line from `pos` on that is not empty (blanks
/// and a line break); nothing is consumed.
pub fn peek_initial_indentation(s: &[char], pos: usize) -> (r: IndentationLevel)
    requires
        pos <= s@.len(),
        s@.len() * 8 <= usize::MAX,
    ensures
        ({
            let q = first_content_line(s@, pos as int);
            &&& r.chars == blanks_end(s@, q) - q
            &&& r.computed == indent_columns(s@, q, blanks_end(s@, q))
        }),
{
    let mut q = pos;
    loop
        invariant
            pos <= q <= s@.len(),
            first_content_line(s@, q as int) == first_content_line(s@, pos as int),
        ensures
            pos <= q <= s@.len(),
            first_content_line(s@, pos as int) == q,
        decreases s@.len() - q,
    {
        let b = blanks(s, q);
        if b < s.len() && s[b] == '\n' {
            q = b + 1;
        } else {
            break;
        }
    }
    let (_, level) = indentation_level(s, q);
    level
}

/// Whether `c` is white space that a help text does not end with.
pub open spec fn is_trailing_space(c: char) -> bool {
    c == ' ' || c == '\t' || c == '\n' || c == '\r'
}

/// `t` without its trailing white space.
pub open spec fn trim_trailing(t: Seq<char>) -> Seq<char>
    decreases t.len(),
{
    if t.len() > 0 && is_trailing_space(t.last()) {
        trim_trailing(t.drop_last())
    } else {
        t
    }
}

/// Whether `s[from..to]` holds only spaces, tabs and carriage returns.
pub open spec fn blank_text(s: Seq<char>, from: int, to: int) -> bool {
    forall|k: int| from <= k < to ==> (#[trigger] s[k] == ' ' || s[k] == '\t' || s[k] == '\r')
}

/// The column after one more blank `c` at column `col`.
pub open spec fn next_column(col: int, c: char) -> int {
    if c == '\t' {
        (col / 8) * 8 + 8
    } else {
        col + 1
    }
}

/// Where the blanks of a line stop being stripped: at the first character that
/// is not a blank, at the end of the line, or once the baseline column is reached.
pub open spec fn strip_end(s: Seq<char>, j: int, eol: int, col: int, baseline: int) -> int
    decreases eol - j,
{
    if 0 <= j < eol && eol <= s.len() && (s[j] == ' ' || s[j] == '\t') && col < baseline {
        strip_end(s, j + 1, eol, next_column(col, s[j]), baseline)
    } else {
        j
    }
}

/// The lines of a help text from `i`, given the baseline column: where they
/// end, and their text (each line with its line break).
pub open spec fn help_lines(s: Seq<char>, i: int, baseline: int) -> (int, Seq<char>)
    decreases s.len() - i,
{
    let eol = line_end(s, i);
    let next = if eol < s.len() {
        eol + 1
    } else {
        eol
    };
    if i < 0 || i >= s.len() || eol > s.len() {
        (i, Seq::empty())
    } else if blank_text(s, i, eol) {
        if next > i {
            let (e, rest) = help_lines(s, next, baseline);
            (e, seq!['\n'] + rest)
        } else {
            (i, Seq::empty())
        }
    } else if indent_columns(s, i, blanks_end(s, i)) < baseline {
        (i, Seq::empty())
    } else if next <= i {
        (i, Seq::empty())
    } else {
        let (e, rest) = help_lines(s, next, baseline);
        (e, s.subrange(strip_end(s, i, eol, 0, baseline), eol) + seq!['\n'] + rest)
    }
}

/// The help text from `pos`: where it ends and its text; see [`parse_help_text`].
pub open spec fn spec_help_text(s: Seq<char>, pos: int) -> (int, Seq<char>) {
    let q = first_content_line(s, pos);
    if blanks_end(s, q) == q {
        (pos, Seq::empty())
    } else {
        let b = indent_columns(s, q, blanks_end(s, q));
        (help_lines(s, pos, b).0, trim_trailing(help_lines(s, pos, b).1))
    }
}

/// Where the `help` keyword and the rest of its line end: `help`, or dashes, `help` and dashes.
pub open spec fn spec_help_keyword(s: Seq<char>, pos: int) -> Option<int> {
    let k = ws_comment_end(s, pos);
    let after = if has_tag(s, k, "help"@) {
        Some(k + "help"@.len())
    } else {
        spec_weirdo_help(s, k)
    };
    match after {
        Some(a) => {
            let p = blanks_end(s, a);
            if pos <= p < s.len() && s[p] == '\n' {
                Some(p + 1)
            } else {
                None
            }
        },
        None => None,
    }
}

pub open spec fn dashes() -> spec_fn(char) -> bool {
    |c: char| c == '-'
}

pub open spec fn dash_or_blank() -> spec_fn(char) -> bool {
    |c: char| c == '-' || c == ' ' || c == '\t'
}

/// Where the older spelling of the help keyword ends: dashes, `help`, and
/// dashes and blanks, as in `---help---` or `-- help`.
pub open spec fn spec_weirdo_help(s: Seq<char>, k: int) -> Option<int> {
    let k2 = ws_comment_end(s, run_end(s, k, dashes()));
    if has_tag(s, k2, "help"@) {
        Some(run_end(s, k2 + "help"@.len(), dash_or_blank()))
    } else {
        None
    }
}

/// Reads the older spellings of the help keyword: dashes, `help`, and dashes
/// and blanks, as in `---help---` or `-- help`.
pub fn weirdo_help(s: &[char], k: usize) -> (r: PResult<()>)
    requires
        k <= s@.len(),
    ensures
        r matches Ok((e, _)) ==> spec_weirdo_help(s@, k as int) == Some(e as int) && k <= e <= s@.len(),
        r is Err ==> spec_weirdo_help(s@, k as int) is None,
        r matches Err(err) ==> err.kind is Mismatch,
{
    let mut d = k;
    while d < s.len() && s[d] == '-'
        invariant
            k <= d <= s@.len(),
            run_end(s@, d as int, dashes()) == run_end(s@, k as int, dashes()),
        decreases s@.len() - d,
    {
        d += 1;
    }
    proof {
        lemma_run_end(s@, k as int, dashes());
    }
    let k2 = ws_comment(s, d);
    match tag(s, k2, "help") {
        Some(e) => {
            let mut t = e;
            while t < s.len() && (s[t] == '-' || s[t] == ' ' || s[t] == '\t')
                invariant
                    e <= t <= s@.len(),
                    run_end(s@, t as int, dash_or_blank()) == run_end(s@, e as int, dash_or_blank()),
                decreases s@.len() - t,
            {
                t += 1;
            }
            proof {
                lemma_run_end(s@, e as int, dash_or_blank());
            }
            Ok((t, ()))
        },
        None => mismatch(k),
    }
}

/// Reads the `help` keyword, also in its older spellings `---help---` and
/// `-- help`, up to the end of its line.
fn parse_help_keyword(s: &[char], pos: usize) -> (r: PResult<()>)
    requires
        pos <= s@.len(),
    ensures
        r matches Ok((e, _)) ==> spec_help_keyword(s@, pos as int) == Some(e as int),
        r is Err ==> spec_help_keyword(s@, pos as int) is None,
        r matches Ok((e, _)) ==> pos < e <= s@.len(),
        r matches Err(err) ==> err.kind is Mismatch,
{
    let k = ws_comment(s, pos);
    let mut p = match tag(s, k, "help") {
        Some(e) => e,
        None => match weirdo_help(s, k) {
            Ok((e, _)) => e,
            Err(err) => return Err(err),
        },
    };
    p = blanks(s, p);
    if p < s.len() && s[p] == '\n' && p >= pos {
        Ok((p + 1, ()))
    } else {
        mismatch(pos)
    }
}

/// Whether the line from `pos` to `eol` holds only blanks.
fn blank_line(s: &[char], pos: usize, eol: usize) -> (r: bool)
    requires
        pos <= eol <= s@.len(),
    ensures
        r == blank_text(s@, pos as int, eol as int),
{
    let mut i = pos;
    while i < eol
        invariant
            pos <= i <= eol <= s@.len(),
            blank_text(s@, pos as int, i as int),
        decreases eol - i,
    {
        if !(s[i] == ' ' || s[i] == '\t' || s[i] == '\r') {
            return false;
        }
        i += 1;
    }
    true
}

proof fn lemma_help_lines_bound(s: Seq<char>, i: int, b: int)
    requires
        0 <= i <= s.len(),
    ensures
        i <= help_lines(s, i, b).0 <= s.len(),
    decreases s.len() - i,
{
    let eol = line_end(s, i);
    if i < s.len() {
        lemma_line_end(s, i);
        let next = if eol < s.len() {
            eol + 1
        } else {
            eol
        };
        if blank_text(s, i, eol) {
            if next > i {
                lemma_help_lines_bound(s, next, b);
            }
        } else if indent_columns(s, i, blanks_end(s, i)) >= b && next > i {
            lemma_help_lines_bound(s, next, b);
        }
    }
}

/// Reads the lines of a help text from `pos`. The first line that is not
/// blank sets the baseline column; the text ends before the first line that
/// is not blank and is indented less. Each line loses its leading blanks up to
/// the baseline column and keeps the rest. Blank lines, those that hold
/// spaces or tabs included, are kept as empty lines and do not end the text;
/// trailing white space is trimmed.
pub fn parse_help_text(s: &[char], pos: usize) -> (r: (usize, String))
    requires
        pos <= s@.len(),
        s@.len() * 8 <= usize::MAX,
    ensures
        (r.0 as int, r.1@) == spec_help_text(s@, pos as int),
        pos <= r.0 <= s@.len(),
        r.1@.len() > 0 ==> !is_trailing_space(r.1@.last()),
{
    let baseline = peek_initial_indentation(s, pos);
    if baseline.chars == 0 {
        return (pos, String::new());
    }
    let ghost b = baseline.computed as int;
    let mut out: Vec<char> = Vec::new();
    let mut i = pos;
    proof {
        lemma_help_lines_bound(s@, pos as int, b);
    }
    loop
        invariant
            pos <= i <= s@.len(),
            s@.len() * 8 <= usize::MAX,
            b == baseline.computed,
            help_lines(s@, i as int, b).0 == help_lines(s@, pos as int, b).0,
            out@ + help_lines(s@, i as int, b).1 == help_lines(s@, pos as int, b).1,
        ensures
            help_lines(s@, pos as int, b).0 == i,
            out@ == help_lines(s@, pos as int, b).1,
        decreases s@.len() - i,
    {
        if i >= s.len() {
            assert(out@ + Seq::<char>::empty() =~= out@);
            break;
        }
        let eol = find_line_end(s, i);
        let next = if eol < s.len() {
            eol + 1
        } else {
            eol
        };
        if blank_line(s, i, eol) {
            if next > i {
                proof {
                    let rest = help_lines(s@, next as int, b).1;
                    assert(out@ + (seq!['\n'] + rest) =~= out@.push('\n') + rest);
                }
                out.push('\n');
                i = next;
                continue;
            } else {
                assert(out@ + Seq::<char>::empty() =~= out@);
                break;
            }
        }
        let (_, level) = indentation_level(s, i);
        if level.computed < baseline.computed {
            assert(out@ + Seq::<char>::empty() =~= out@);
            break;
        }
        // strip blanks up to the baseline column
        let mut j = i;
        let mut col: usize = 0;
        while j < eol && (s[j] == ' ' || s[j] == '\t') && col < baseline.computed
            invariant
                i <= j <= eol <= s@.len(),
                col <= 8 * (j - i),
                s@.len() * 8 <= usize::MAX,
                b == baseline.computed,
                strip_end(s@, j as int, eol as int, col as int, b) == strip_end(s@, i as int, eol as int, 0, b),
            decreases eol - j,
        {
            proof {
                assert(strip_end(s@, j as int, eol as int, col as int, b) == strip_end(
                    s@,
                    j + 1,
                    eol as int,
                    next_column(col as int, s@[j as int]),
                    b,
                ));
            }
            if s[j] == '\t' {
                col = (col / 8) * 8 + 8;
            } else {
                col = col + 1;
            }
            j += 1;
        }
        let ghost before = out@;
        let mut k = j;
        while k < eol
            invariant
                j <= k <= eol <= s@.len(),
                out@ == before + s@.subrange(j as int, k as int),
            decreases eol - k,
        {
            out.push(s[k]);
            k += 1;
            assert(out@ =~= before + s@.subrange(j as int, k as int));
        }
        out.push('\n');
        proof {
            let rest = help_lines(s@, next as int, b).1;
            assert(before + (s@.subrange(j as int, eol as int) + seq!['\n'] + rest) =~= out@ + rest);
        }
        i = next;
    }
    let ghost full = out@;
    while out.len() > 0 && (out[out.len() - 1] == ' ' || out[out.len() - 1] == '\t' || out[out.len()
        - 1] == '\n' || out[out.len() - 1] == '\r')
        invariant
            trim_trailing(out@) == trim_trailing(full),
        decreases out@.len(),
    {
        assert(out@.drop_last() == out@.subrange(0, out@.len() - 1));
        out.pop();
    }
    let n = out.len();
    proof {
        assert(out@.subrange(0, n as int) =~= out@);
    }
    (i, string_of(out.as_slice(), 0, n))
}

/// Reads a `help` attribute: the keyword, then its text.
pub fn parse_help(s: &[char], pos: usize) -> (r: PResult<String>)
    requires
        pos <= s@.len(),
        s@.len() * 8 <= usize::MAX,
    ensures
        r matches Ok((e, t)) ==> spec_help_keyword(s@, pos as int) is Some && spec_help_text(s@, spec_help_keyword(s@, pos as int)->0) == (e as int, t@),
        r is Err ==> spec_help_keyword(s@, pos as int) is None,
        r matches Ok((e, t)) ==> pos < e <= s@.len() && (t@.len() > 0 ==> !is_trailing_space(
            t@.last(),
        )),
        r matches Err(err) ==> err.kind is Mismatch,
{
    match parse_help_keyword(s, pos) {
        Ok((p, _)) => {
            let (e, t) = parse_help_text(s, p);
            Ok((e, t))
        },
        Err(err) => Err(err),
    }
}

} // verus!
