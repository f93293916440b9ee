//! Character classes, keywords, and the skipping of blanks and comments.

use vstd::prelude::*;

verus! {

/// Relies on `str::chars`: the characters of `s`, in order.
#[verifier::external_body]
pub fn chars_of(s: &str) -> (r: Vec<char>)
    ensures
        r@ == s@,
{
    s.chars().collect()
}

/// Relies on `FromIterator<char>` for `String`: the string of the characters `s[from..to]`.
#[verifier::external_body]
pub fn string_of(s: &[char], from: usize, to: usize) -> (r: String)
    requires
        from <= to <= s@.len(),
    ensures
        r@ == s@.subrange(from as int, to as int),
{
    s[from..to].iter().collect()
}

pub open spec fn is_alnum(c: char) -> bool {
    ('a' <= c && c <= 'z') || ('A' <= c && c <= 'Z') || ('0' <= c && c <= '9')
}

pub open spec fn is_digit(c: char) -> bool {
    '0' <= c && c <= '9'
}

/// A space or a tab.
pub open spec fn is_blank(c: char) -> bool {
    c == ' ' || c == '\t'
}

/// A space, a tab, or a line break.
pub open spec fn is_multispace(c: char) -> bool {
    c == ' ' || c == '\t' || c == '\n' || c == '\r'
}

pub fn alnum(c: char) -> (r: bool)
    ensures
        r == is_alnum(c),
{
    ('a' <= c && c <= 'z') || ('A' <= c && c <= 'Z') || ('0' <= c && c <= '9')
}

pub fn digit(c: char) -> (r: bool)
    ensures
        r == is_digit(c),
{
    '0' <= c && c <= '9'
}

/// Where the keyword `t` ends if it stands in `s` at `pos`.
pub fn tag(s: &[char], pos: usize, t: &str) -> (r: Option<usize>)
    requires
        pos <= s@.len(),
    ensures
        r is Some <==> has_tag(s@, pos as int, t@),
        r matches Some(e) ==> e == pos + t@.len() && pos <= e <= s@.len(),
{
    let n = t.unicode_len();
    let len = s.len();
    if tag_at(s, pos, t) {
        Some(pos + n)
    } else {
        None
    }
}

/// `t` stands in `s` at `pos`.
pub open spec fn has_tag(s: Seq<char>, pos: int, t: Seq<char>) -> bool {
    0 <= pos && pos + t.len() <= s.len() && s.subrange(pos, pos + t.len()) =~= t
}

/// Whether the keyword `t` stands in `s` at `pos`.
pub fn tag_at(s: &[char], pos: usize, t: &str) -> (r: bool)
    requires
        pos <= s@.len(),
    ensures
        r == has_tag(s@, pos as int, t@),
{
    let n = t.unicode_len();
    let len = s.len();
    if n > len - pos {
        return false;
    }
    let mut i: usize = 0;
    while i < n
        invariant
            i <= n,
            n == t@.len(),
            pos + n <= len,
            len == s@.len(),
            forall|j: int| 0 <= j < i ==> s@[pos + j] == t@[j],
        decreases n - i,
    {
        if s[pos + i] != t.get_char(i) {
            assert(s@.subrange(pos as int, pos + n)[i as int] != t@[i as int]);
            return false;
        }
        i += 1;
    }
    assert(s@.subrange(pos as int, pos + n) =~= t@);
    true
}

/// The end of the run of characters from `pos` on that satisfy `p`.
pub open spec fn run_end(s: Seq<char>, pos: int, p: spec_fn(char) -> bool) -> int
    decreases s.len() - pos,
{
    if pos < 0 || pos >= s.len() || !p(s[pos]) {
        pos
    } else {
        run_end(s, pos + 1, p)
    }
}

pub proof fn lemma_run_end<>(s: Seq<char>, pos: int, p: spec_fn(char) -> bool)
    requires
        0 <= pos <= s.len(),
    ensures
        pos <= run_end(s, pos, p) <= s.len(),
        forall|j: int| pos <= j < run_end(s, pos, p) ==> p(#[trigger] s[j]),
        run_end(s, pos, p) < s.len() ==> !p(s[run_end(s, pos, p)]),
    decreases s.len() - pos,
{
    if pos < s.len() && p(s[pos]) {
        lemma_run_end(s, pos + 1, p);
    }
}

/// The characters other than `q`.
pub open spec fn other_than(q: char) -> spec_fn(char) -> bool {
    |c: char| c != q
}

/// Spaces and tabs.
pub open spec fn blank_chars() -> spec_fn(char) -> bool {
    |c: char| is_blank(c)
}

/// The position of the first line feed at or after `pos`, or the end of `s`.
pub open spec fn line_end(s: Seq<char>, pos: int) -> int {
    run_end(s, pos, other_than('\n'))
}

/// The end of the blanks (spaces and tabs) from `pos` on.
pub open spec fn blanks_end(s: Seq<char>, pos: int) -> int {
    run_end(s, pos, blank_chars())
}

/// The position after the line that holds `pos`, line feed included.
pub open spec fn after_line(s: Seq<char>, pos: int) -> int {
    if line_end(s, pos) < s.len() {
        line_end(s, pos) + 1
    } else {
        line_end(s, pos)
    }
}

/// Whether a comment starts at `pos`: `#`, or `\#`.
pub open spec fn comment_at(s: Seq<char>, pos: int) -> bool {
    (0 <= pos < s.len() && s[pos] == '#') || (0 <= pos && pos + 1 < s.len() && s[pos] == '\\'
        && s[pos + 1] == '#')
}

/// The end of the blanks, line breaks and comments from `pos` on. A comment runs to the end of its line.
pub open spec fn ws_comment_end(s: Seq<char>, pos: int) -> int
    decreases s.len() - pos,
{
    if pos < 0 || pos >= s.len() {
        pos
    } else if comment_at(s, pos) {
        if pos < after_line(s, pos) <= s.len() {
            ws_comment_end(s, after_line(s, pos))
        } else {
            pos
        }
    } else if is_multispace(s[pos]) {
        ws_comment_end(s, pos + 1)
    } else if pos + 1 < s.len() && s[pos] == '\u{c2}' && s[pos + 1] == ' ' {
        ws_comment_end(s, pos + 2)
    } else {
        pos
    }
}

/// The end of the spaces, tabs and escaped line breaks (`\` then a line feed) from `pos` on.
pub open spec fn wsi_end(s: Seq<char>, pos: int) -> int
    decreases s.len() - pos,
{
    if pos < 0 || pos >= s.len() {
        pos
    } else if is_blank(s[pos]) {
        wsi_end(s, pos + 1)
    } else if pos + 1 < s.len() && s[pos] == '\\' && s[pos + 1] == '\n' {
        wsi_end(s, pos + 2)
    } else if pos + 2 < s.len() && s[pos] == '\\' && s[pos + 1] == '\r' && s[pos + 2] == '\n' {
        wsi_end(s, pos + 3)
    } else {
        pos
    }
}

pub proof fn lemma_line_end(s: Seq<char>, pos: int)
    requires
        0 <= pos <= s.len(),
    ensures
        pos <= line_end(s, pos) <= s.len(),
        line_end(s, pos) < s.len() ==> s[line_end(s, pos)] == '\n',
        forall|j: int| pos <= j < line_end(s, pos) ==> s[j] != '\n',
{
    lemma_run_end(s, pos, other_than('\n'));
}

pub proof fn lemma_ws_comment_end(s: Seq<char>, pos: int)
    requires
        0 <= pos <= s.len(),
    ensures
        pos <= ws_comment_end(s, pos) <= s.len(),
    decreases s.len() - pos,
{
    if pos < s.len() {
        if comment_at(s, pos) {
            lemma_line_end(s, pos);
            if pos < after_line(s, pos) <= s.len() {
                lemma_ws_comment_end(s, after_line(s, pos));
            }
        } else if is_multispace(s[pos]) {
            lemma_ws_comment_end(s, pos + 1);
        } else if pos + 1 < s.len() && s[pos] == '\u{c2}' && s[pos + 1] == ' ' {
            lemma_ws_comment_end(s, pos + 2);
        }
    }
}

pub proof fn lemma_wsi_end(s: Seq<char>, pos: int)
    requires
        0 <= pos <= s.len(),
    ensures
        pos <= wsi_end(s, pos) <= s.len(),
    decreases s.len() - pos,
{
    if pos < s.len() {
        if is_blank(s[pos]) {
            lemma_wsi_end(s, pos + 1);
        } else if pos + 1 < s.len() && s[pos] == '\\' && s[pos + 1] == '\n' {
            lemma_wsi_end(s, pos + 2);
        } else if pos + 2 < s.len() && s[pos] == '\\' && s[pos + 1] == '\r' && s[pos + 2]
            == '\n' {
            lemma_wsi_end(s, pos + 3);
        }
    }
}

/// The position of the first line feed at or after `pos`, or the end of `s`.
pub fn find_line_end(s: &[char], pos: usize) -> (r: usize)
    requires
        pos <= s@.len(),
    ensures
        r == line_end(s@, pos as int),
        pos <= r <= s@.len(),
{
    let mut i = pos;
    while i < s.len() && s[i] != '\n'
        invariant
            pos <= i <= s@.len(),
            line_end(s@, i as int) == line_end(s@, pos as int),
        decreases s@.len() - i,
    {
        i += 1;
    }
    proof {
        lemma_line_end(s@, pos as int);
    }
    i
}

/// Skips blanks, line breaks and comments.
pub fn ws_comment(s: &[char], pos: usize) -> (r: usize)
    requires
        pos <= s@.len(),
    ensures
        r == ws_comment_end(s@, pos as int),
        pos <= r <= s@.len(),
{
    let mut i = pos;
    loop
        invariant
            pos <= i <= s@.len(),
            ws_comment_end(s@, i as int) == ws_comment_end(s@, pos as int),
        ensures
            pos <= i <= s@.len(),
            ws_comment_end(s@, i as int) == ws_comment_end(s@, pos as int),
            ws_comment_end(s@, i as int) == i,
        decreases s@.len() - i,
    {
        if i >= s.len() {
            break;
        }
        let is_comment = s[i] == '#' || (s.len() - i > 1 && s[i] == '\\' && s[i + 1] == '#');
        if is_comment {
            let e = find_line_end(s, i);
            let next = if e < s.len() {
                e + 1
            } else {
                e
            };
            if next > i {
                i = next;
            } else {
                break;
            }
        } else if s[i] == ' ' || s[i] == '\t' || s[i] == '\n' || s[i] == '\r' {
            i += 1;
        } else if s.len() - i > 1 && s[i] == '\u{c2}' && s[i + 1] == ' ' {
            i += 2;
        } else {
            break;
        }
    }
    proof {
        lemma_ws_comment_end(s@, pos as int);
    }
    i
}

/// Skips spaces, tabs and escaped line breaks.
pub fn wsi(s: &[char], pos: usize) -> (r: usize)
    requires
        pos <= s@.len(),
    ensures
        r == wsi_end(s@, pos as int),
        pos <= r <= s@.len(),
{
    let mut i = pos;
    loop
        invariant
            pos <= i <= s@.len(),
            wsi_end(s@, i as int) == wsi_end(s@, pos as int),
        ensures
            pos <= i <= s@.len(),
            wsi_end(s@, i as int) == wsi_end(s@, pos as int),
            wsi_end(s@, i as int) == i,
        decreases s@.len() - i,
    {
        if i >= s.len() {
            break;
        }
        if s[i] == ' ' || s[i] == '\t' {
            i += 1;
        } else if s.len() - i > 1 && s[i] == '\\' && s[i + 1] == '\n' {
            i += 2;
        } else if s.len() - i > 2 && s[i] == '\\' && s[i + 1] == '\r' && s[i + 2] == '\n' {
            i += 3;
        } else {
            break;
        }
    }
    proof {
        lemma_wsi_end(s@, pos as int);
    }
    i
}

/// Skips spaces and tabs.
pub fn blanks(s: &[char], pos: usize) -> (r: usize)
    requires
        pos <= s@.len(),
    ensures
        r == blanks_end(s@, pos as int),
        pos <= r <= s@.len(),
{
    let mut i = pos;
    while i < s.len() && (s[i] == ' ' || s[i] == '\t')
        invariant
            pos <= i <= s@.len(),
            blanks_end(s@, i as int) == blanks_end(s@, pos as int),
        decreases s@.len() - i,
    {
        i += 1;
    }
    proof {
        lemma_run_end(s@, pos as int, blank_chars());
    }
    i
}

/// Reads the rest of the line: the text up to the line feed or the end, and
/// the position after the line feed.
pub fn parse_until_eol(s: &[char], pos: usize) -> (r: (usize, String))
    requires
        pos <= s@.len(),
    ensures
        r.1@ == s@.subrange(pos as int, line_end(s@, pos as int)),
        r.0 == after_line(s@, pos as int),
        pos <= r.0 <= s@.len(),
{
    let eol = find_line_end(s, pos);
    let text = string_of(s, pos, eol);
    if eol < s.len() {
        (eol + 1, text)
    } else {
        (eol, text)
    }
}

} // verus!
