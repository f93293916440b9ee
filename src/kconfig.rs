//! The root of the tree: one parsed file.

use vstd::prelude::*;
use crate::entry::{block_from, entries_view, kconfig_view, parse_block_entries, Entry, EntryV, KconfigV, Outcome};
use crate::text::{chars_of, ws_comment, ws_comment_end};
use crate::{Context, ErrorKind, ParseError, PResult};

verus! {

/// A parsed Kconfig file: its path relative to the root directory, and its entries.
#[derive(Debug, PartialEq, Eq)]
pub struct Kconfig {
    pub file: String,
    pub entries: Vec<Entry>,
}

/// Entries with the blanks and comments around them; see [`parse_entries`].
pub open spec fn spec_entries(s: Seq<char>, pos: int, ctx: Context, depth: int) -> Outcome<Seq<EntryV>>
    decreases depth, s.len() - pos, 4int,
{
    let p = ws_comment_end(s, pos);
    if !(0 <= pos <= p <= s.len()) {
        Outcome::NoMatch
    } else {
        match block_from(s, p, ctx, depth) {
            Outcome::Done(e, v) => Outcome::Done(ws_comment_end(s, e), v),
            Outcome::NoMatch => Outcome::NoMatch,
            Outcome::Fatal(k) => Outcome::Fatal(k),
        }
    }
}

/// A whole text parsed as the file `file`; see [`parse_kconfig_text`].
pub open spec fn spec_kconfig_text(s: Seq<char>, file: Seq<char>, ctx: Context, depth: int) -> Result<KconfigV, ErrorKind>
    decreases depth, s.len(), 5int,
{
    match spec_entries(s, 0, ctx, depth) {
        Outcome::Done(e, v) => if e == s.len() {
            Ok(KconfigV { file, entries: v })
        } else {
            Err(ErrorKind::TrailingInput)
        },
        Outcome::NoMatch => Err(ErrorKind::Mismatch),
        Outcome::Fatal(k) => Err(k),
    }
}

/// Reads entries for as long as there are some, with the blanks and comments around them.
pub fn parse_entries(s: &[char], pos: usize, ctx: &Context, depth: usize) -> (r: PResult<Vec<Entry>>)
    requires
        pos <= s@.len(),
        s@.len() * 8 <= usize::MAX,
    ensures
        r matches Ok((e, v)) ==> spec_entries(s@, pos as int, *ctx, depth as int) == Outcome::Done(e as int, entries_view(v@)),
        r matches Err(err) ==> err.kind.is_fatal() && spec_entries(s@, pos as int, *ctx, depth as int) == Outcome::<Seq<EntryV>>::Fatal(err.kind),
        r matches Ok((e, _)) ==> pos <= e <= s@.len(),
    decreases depth, s@.len() - pos, 4int,
{
    let p = ws_comment(s, pos);
    match parse_block_entries(s, p, ctx, depth) {
        Ok((e, entries)) => Ok((ws_comment(s, e), entries)),
        Err(err) => Err(err),
    }
}

/// Parses the whole of `s` as the file `file`: entries with blanks and
/// comments around them, up to the end. Text left over is an error.
pub fn parse_kconfig_text(s: &[char], file: String, ctx: &Context, depth: usize) -> (r: Result<
    Kconfig,
    ParseError,
>)
    requires
        s@.len() * 8 <= usize::MAX,
    ensures
        r matches Ok(k) ==> spec_kconfig_text(s@, file@, *ctx, depth as int) == Ok::<KconfigV, ErrorKind>(kconfig_view(k)),
        r matches Err(err) ==> spec_kconfig_text(s@, file@, *ctx, depth as int) == Err::<KconfigV, ErrorKind>(err.kind),
        r matches Ok(k) ==> k.file@ == file@,
    decreases depth, s@.len(), 5int,
{
    match parse_entries(s, 0, ctx, depth) {
        Ok((e, entries)) => if e == s.len() {
            Ok(Kconfig { file, entries })
        } else {
            Err(ParseError { position: e, kind: ErrorKind::TrailingInput })
        },
        Err(err) => Err(err),
    }
}

/// What [`parse_kconfig`] gives for `content`: a text too long to index is
/// refused, any other is parsed as the file of `ctx`.
pub open spec fn spec_parse_kconfig(content: Seq<char>, ctx: Context) -> Result<KconfigV, ErrorKind> {
    if content.len() > usize::MAX / 8 {
        Err(ErrorKind::Mismatch)
    } else {
        spec_kconfig_text(content, ctx.file.file@, ctx, ctx.max_source_depth as int)
    }
}

/// A result of [`parse_kconfig`] agrees with [`spec_parse_kconfig`]: the same
/// tree, or an error of the same kind.
pub open spec fn parse_agrees(r: Result<Kconfig, ParseError>, content: Seq<char>, ctx: Context) -> bool {
    match r {
        Ok(k) => spec_parse_kconfig(content, ctx) == Ok::<KconfigV, ErrorKind>(kconfig_view(k)),
        Err(err) => spec_parse_kconfig(content, ctx) == Err::<KconfigV, ErrorKind>(err.kind),
    }
}

/// Parses `content` as the file of `ctx`, resolving `source` directives
/// against the files of `ctx`.
pub fn parse_kconfig(content: &str, ctx: &Context) -> (r: Result<Kconfig, ParseError>)
    ensures
        parse_agrees(r, content@, *ctx),
        r matches Ok(k) ==> spec_parse_kconfig(content@, *ctx) == Ok::<KconfigV, ErrorKind>(kconfig_view(k)),
        r matches Err(err) ==> spec_parse_kconfig(content@, *ctx) == Err::<KconfigV, ErrorKind>(err.kind),
        r matches Ok(k) ==> k.file@ == ctx.file.file@,
{
    let s = chars_of(content);
    if s.len() > usize::MAX / 8 {
        return Err(ParseError { position: 0, kind: ErrorKind::Mismatch });
    }
    let file = ctx.file.file.clone();
    parse_kconfig_text(s.as_slice(), file, ctx, ctx.max_source_depth)
}

} // verus!
