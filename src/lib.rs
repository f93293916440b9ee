//! A parser for the Kconfig configuration language.
//!
//! The input is held as a sequence of characters; every parser takes that
//! sequence and a position, and returns the position after what it read
//! together with the value it built, or a [`ParseError`]. Each parser is
//! specified by a spec function over the characters (`spec_or`, `spec_entry`,
//! ...) that gives the same position and the value's mathematical view.
//!
//! `source` directives are resolved against files held in memory by the
//! [`Context`]: the library reads no disk.

use vstd::prelude::*;

pub mod text;
pub mod symbol;
pub mod number;
pub mod function;
pub mod expression;
pub mod help;
pub mod attribute;
pub mod vars;
pub mod entry;
pub mod kconfig;
pub mod display;
pub mod laws;

verus! {

/// What went wrong, and whether the enclosing alternatives may still be tried.
#[derive(Debug, Clone, Copy, PartialEq, Eq, Structural)]
pub enum ErrorKind {
    /// The text at the position matches none of the alternatives.
    Mismatch,
    /// A `choice`, `menu` or `if` block has no matching terminator.
    Unterminated,
    /// A `source`d file is not available.
    MissingSource,
    /// A `source`d file is available but does not parse.
    SourceFailed,
    /// `source` directives nest deeper than the context allows (a cycle).
    SourceTooDeep,
    /// The entries end before the input does.
    TrailingInput,
}

/// A parse failure, at a position of the input.
#[derive(Debug, Clone, Copy, PartialEq, Eq, Structural)]
pub struct ParseError {
    pub position: usize,
    pub kind: ErrorKind,
}

impl ErrorKind {
    /// A fatal error is not recovered by trying another alternative.
    pub open spec fn spec_is_fatal(self) -> bool {
        !(self is Mismatch)
    }

    #[verifier::when_used_as_spec(spec_is_fatal)]
    pub fn is_fatal(self) -> (r: bool)
        ensures
            r == self.spec_is_fatal(),
    {
        !matches!(self, ErrorKind::Mismatch)
    }
}

/// The result of a parser: the position after what was read, and the value.
pub type PResult<T> = Result<(usize, T), ParseError>;

/// A recoverable mismatch at `pos`.
pub fn mismatch<T>(pos: usize) -> (r: PResult<T>)
    ensures
        r == Err::<(usize, T), ParseError>(ParseError { position: pos, kind: ErrorKind::Mismatch }),
{
    Err(ParseError { position: pos, kind: ErrorKind::Mismatch })
}

/// A result that, when it succeeds, ends between `pos` and the end of `s`.
pub open spec fn advances<T>(r: PResult<T>, s: Seq<char>, pos: int) -> bool {
    r is Ok ==> pos <= r->Ok_0.0 <= s.len()
}

/// A result that, when it succeeds, ends strictly after `pos`.
pub open spec fn consumes<T>(r: PResult<T>, s: Seq<char>, pos: int) -> bool {
    r is Ok ==> pos < r->Ok_0.0 <= s.len()
}

} // verus!

verus! {

/// The path `file` taken relative to the directory `root`, as `Path::join` forms it:
/// an absolute `file` stands alone, and a separator is put between the two where `root` lacks one.
pub open spec fn join_path(root: Seq<char>, file: Seq<char>) -> Seq<char> {
    if file.len() > 0 && file[0] == '/' {
        file
    } else if root.len() == 0 {
        file
    } else if root.last() == '/' {
        root + file
    } else {
        root + seq!['/'] + file
    }
}

/// A Kconfig file: the root directory against which `source` paths are
/// resolved, the file's path relative to it, and the variables that
/// `source` paths may refer to as `$(NAME)`.
#[derive(Debug)]
pub struct KconfigFile {
    pub root_dir: String,
    pub file: String,
    /// The variables, as name and value. A list rather than a hash map with
    /// `String` keys, which Verus specifies too little to reason about; where a
    /// name is defined twice the later definition wins, as inserting both into
    /// a map would give.
    pub vars: Vec<(String, String)>,
}

/// A copy of a list of variable definitions.
fn copy_vars(vars: &Vec<(String, String)>) -> (r: Vec<(String, String)>)
    ensures
        vars::vars_view(r@) == vars::vars_view(vars@),
{
    let mut out: Vec<(String, String)> = Vec::new();
    let mut i: usize = 0;
    while i < vars.len()
        invariant
            i <= vars@.len(),
            vars::vars_view(out@) == vars::vars_view(vars@.subrange(0, i as int)),
        decreases vars@.len() - i,
    {
        let k = vars[i].0.clone();
        let v = vars[i].1.clone();
        let ghost prev = out@;
        out.push((k, v));
        proof {
            assert(vars@.subrange(0, i + 1) =~= vars@.subrange(0, i as int).push(vars@[i as int]));
            assert(vars::vars_view(out@) =~= vars::vars_view(prev).push((k@, v@)));
            assert(vars::vars_view(vars@.subrange(0, i + 1)) =~= vars::vars_view(
                vars@.subrange(0, i as int),
            ).push((vars@[i as int].0@, vars@[i as int].1@)));
        }
        i += 1;
    }
    assert(vars@.subrange(0, vars@.len() as int) =~= vars@);
    out
}

impl KconfigFile {
    pub fn new(root_dir: String, file: String) -> (r: Self)
        ensures
            r.root_dir@ == root_dir@,
            r.file@ == file@,
            r.vars@.len() == 0,
    {
        KconfigFile { root_dir, file, vars: Vec::new() }
    }

    pub fn new_with_vars(root_dir: String, file: String, vars: &Vec<(String, String)>) -> (r: Self)
        ensures
            r.root_dir@ == root_dir@,
            r.file@ == file@,
            vars::vars_view(r.vars@) == vars::vars_view(vars@),
    {
        KconfigFile { root_dir, file, vars: copy_vars(vars) }
    }

    /// The file's path joined to the root directory.
    pub fn full_path(&self) -> (r: String)
        ensures
            r@ == join_path(self.root_dir@, self.file@),
    {
        let root = text::chars_of(self.root_dir.as_str());
        let file = text::chars_of(self.file.as_str());
        let mut out: Vec<char> = Vec::new();
        if file.len() > 0 && file[0] == '/' {
            vars::push_all(&mut out, file.as_slice());
        } else if root.len() == 0 {
            vars::push_all(&mut out, file.as_slice());
        } else {
            vars::push_all(&mut out, root.as_slice());
            if root[root.len() - 1] != '/' {
                out.push('/');
            }
            vars::push_all(&mut out, file.as_slice());
        }
        let n = out.len();
        proof {
            assert(out@.subrange(0, n as int) =~= out@);
        }
        text::string_of(out.as_slice(), 0, n)
    }

    /// Replaces the variables.
    pub fn set_vars(&mut self, vars: &Vec<(String, String)>)
        ensures
            vars::vars_view(final(self).vars@) == vars::vars_view(vars@),
            final(self).root_dir == old(self).root_dir,
            final(self).file == old(self).file,
    {
        self.vars = copy_vars(vars);
    }

    /// The content of this file among `files` (paths relative to the root,
    /// with their contents); `None` where it is not there.
    pub fn read_to_string(&self, files: &Vec<(String, String)>) -> (r: Option<String>)
        ensures
            r matches Some(t) ==> vars::lookup(vars::vars_view(files@), self.file@) == Some(t@),
            r is None ==> vars::lookup(vars::vars_view(files@), self.file@) is None,
    {
        match vars::lookup_var(files, &self.file) {
            Some(k) => Some(files[k].1.clone()),
            None => None,
        }
    }
}

impl Default for KconfigFile {
    fn default() -> (r: Self)
        ensures
            r.root_dir@.len() == 0,
            r.file@.len() == 0,
            r.vars@.len() == 0,
    {
        KconfigFile { root_dir: String::new(), file: String::new(), vars: Vec::new() }
    }
}

/// What a parse needs besides the text: the file, the files that `source`
/// may bring in, and how `source` behaves.
#[derive(Debug)]
pub struct Context {
    pub file: KconfigFile,
    /// The files that `source` can read: paths relative to the root directory, with their contents.
    pub sources: Vec<(String, String)>,
    /// Whether a `source` of a file that is not there fails the parse; if not, it gives an empty placeholder.
    pub fail_on_missing_source: bool,
    /// How deep `source` directives may nest; deeper nesting, as a cycle gives, fails the parse.
    pub max_source_depth: usize,
}

/// How deep `source` directives may nest by default.
pub const DEFAULT_SOURCE_DEPTH: usize = 64;

impl Context {
    /// A context for `file`, with no files to source.
    pub fn new(file: KconfigFile) -> (r: Self)
        ensures
            r.file == file,
            r.sources@.len() == 0,
            r.fail_on_missing_source,
            r.max_source_depth == DEFAULT_SOURCE_DEPTH,
    {
        Context {
            file,
            sources: Vec::new(),
            fail_on_missing_source: true,
            max_source_depth: DEFAULT_SOURCE_DEPTH,
        }
    }

    /// Makes `content` available to `source` under `path`.
    pub fn add_source(&mut self, path: String, content: String)
        ensures
            final(self).sources@ == old(self).sources@.push((path, content)),
            final(self).file == old(self).file,
            final(self).fail_on_missing_source == old(self).fail_on_missing_source,
            final(self).max_source_depth == old(self).max_source_depth,
    {
        self.sources.push((path, content));
    }
}

} // verus!
