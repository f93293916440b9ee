//! Substitution of `$(NAME)` references in `source` paths.

use vstd::prelude::*;
use crate::text::{chars_of, string_of};

verus! {

/// What `regex` finds for the pattern `\$\((\S+)\)` in `s`: the text of the
/// group of each match, from left to right.
pub uninterp spec fn dollar_references(s: Seq<char>) -> Seq<Seq<char>>;

/// Relies on `regex::Regex::new` (the pattern is valid, so it returns `Ok`) and
/// on `Regex::captures_iter`: the first group of each successive match.
#[verifier::external_body]
fn find_references(s: &str) -> (r: Vec<String>)
    ensures
        r@.len() == dollar_references(s@).len(),
        forall|i: int| 0 <= i < r@.len() ==> #[trigger] r@[i]@ == dollar_references(s@)[i],
{
    let re = regex::Regex::new(r"\$\((\S+)\)").unwrap();
    re.captures_iter(s).map(|c| c[1].to_string()).collect()
}

/// The views of a list of variable definitions.
pub open spec fn vars_view(vars: Seq<(String, String)>) -> Seq<(Seq<char>, Seq<char>)> {
    vars.map_values(|p: (String, String)| (p.0@, p.1@))
}

/// The value of `name` in `vars`; a later definition overrides an earlier one.
pub open spec fn lookup(vars: Seq<(Seq<char>, Seq<char>)>, name: Seq<char>) -> Option<Seq<char>>
    decreases vars.len(),
{
    if vars.len() == 0 {
        None
    } else if vars.last().0 == name {
        Some(vars.last().1)
    } else {
        lookup(vars.drop_last(), name)
    }
}

/// `s` with each occurrence of `pat`, from left to right and without overlap, replaced by `rep`.
pub open spec fn replace_all(s: Seq<char>, pat: Seq<char>, rep: Seq<char>) -> Seq<char>
    decreases s.len(),
{
    if s.len() == 0 {
        s
    } else if 0 < pat.len() <= s.len() && s.subrange(0, pat.len() as int) == pat {
        rep + replace_all(s.subrange(pat.len() as int, s.len() as int), pat, rep)
    } else {
        seq![s[0]] + replace_all(s.subrange(1, s.len() as int), pat, rep)
    }
}

/// The reference `$(name)`.
pub open spec fn reference(name: Seq<char>) -> Seq<char> {
    seq!['$', '('] + name + seq![')']
}

/// `s` with the references to `names`, taken in turn, replaced by their values;
/// `None` as soon as one of the names has no value.
pub open spec fn substitute(s: Seq<char>, names: Seq<Seq<char>>, vars: Seq<(Seq<char>, Seq<char>)>) -> Option<Seq<char>>
    decreases names.len(),
{
    if names.len() == 0 {
        Some(s)
    } else {
        match lookup(vars, names[0]) {
            None => None,
            Some(v) => substitute(replace_all(s, reference(names[0]), v), names.subrange(1, names.len() as int), vars),
        }
    }
}

/// Whether `pat` is not empty and stands in `s` at `i`.
fn pattern_at(s: &[char], i: usize, pat: &[char]) -> (r: bool)
    requires
        i <= s@.len(),
    ensures
        r == (0 < pat@.len() <= s@.len() - i && s@.subrange(i as int, i + pat@.len()) == pat@),
{
    let m = pat.len();
    let n = s.len();
    if m == 0 || m > n - i {
        return false;
    }
    let mut j: usize = 0;
    while j < m
        invariant
            j <= m == pat@.len(),
            n == s@.len(),
            i + m <= n,
            forall|k: int| 0 <= k < j ==> s@[i + k] == pat@[k],
        decreases m - j,
    {
        if s[i + j] != pat[j] {
            assert(s@.subrange(i as int, i + m)[j as int] != pat@[j as int]);
            return false;
        }
        j += 1;
    }
    assert(s@.subrange(i as int, i + m) =~= pat@);
    true
}

/// Appends the characters of `t` to `out`.
pub fn push_all(out: &mut Vec<char>, t: &[char])
    ensures
        final(out)@ == old(out)@ + t@,
{
    let mut k: usize = 0;
    while k < t.len()
        invariant
            k <= t@.len(),
            out@ == old(out)@ + t@.subrange(0, k as int),
        decreases t@.len() - k,
    {
        out.push(t[k]);
        k += 1;
        assert(out@ =~= old(out)@ + t@.subrange(0, k as int));
    }
    assert(t@.subrange(0, t@.len() as int) =~= t@);
}

/// Replaces each occurrence of `pat` in `s` by `rep`.
pub fn replace_all_in(s: &[char], pat: &[char], rep: &[char]) -> (r: Vec<char>)
    ensures
        r@ == replace_all(s@, pat@, rep@),
{
    let mut out: Vec<char> = Vec::new();
    let mut i: usize = 0;
    let n = s.len();
    assert(s@.subrange(0, n as int) =~= s@);
    while i < n
        invariant
            i <= n == s@.len(),
            out@ + replace_all(s@.subrange(i as int, n as int), pat@, rep@) == replace_all(s@, pat@, rep@),
        decreases n - i,
    {
        let ghost rest = s@.subrange(i as int, n as int);
        let ghost before = out@;
        if pattern_at(s, i, pat) {
            let m = pat.len();
            assert(rest.subrange(0, m as int) =~= s@.subrange(i as int, i + m));
            assert(rest.subrange(m as int, rest.len() as int) =~= s@.subrange(i + m, n as int));
            push_all(&mut out, rep);
            assert(out@ + replace_all(s@.subrange(i + m, n as int), pat@, rep@) =~= before + replace_all(rest, pat@, rep@));
            i += m;
        } else {
            assert(!(0 < pat@.len() <= rest.len() && rest.subrange(0, pat@.len() as int) == pat@)) by {
                if 0 < pat@.len() <= rest.len() {
                    assert(rest.subrange(0, pat@.len() as int) =~= s@.subrange(i as int, i + pat@.len()));
                }
            }
            assert(rest.subrange(1, rest.len() as int) =~= s@.subrange(i + 1, n as int));
            out.push(s[i]);
            assert(out@ + replace_all(s@.subrange(i + 1, n as int), pat@, rep@) =~= before + replace_all(rest, pat@, rep@));
            i += 1;
        }
    }
    assert(s@.subrange(n as int, n as int).len() == 0);
    assert(out@ + replace_all(s@.subrange(n as int, n as int), pat@, rep@) =~= out@);
    out
}

/// The value of `name` in `vars`, the last definition winning.
pub fn lookup_var(vars: &Vec<(String, String)>, name: &String) -> (r: Option<usize>)
    ensures
        r matches Some(k) ==> k < vars@.len() && lookup(vars_view(vars@), name@) == Some(vars@[k as int].1@),
        r is None ==> lookup(vars_view(vars@), name@) is None,
{
    let mut i = vars.len();
    assert(vars@.subrange(0, i as int) =~= vars@);
    while i > 0
        invariant
            i <= vars@.len(),
            lookup(vars_view(vars@), name@) == lookup(vars_view(vars@.subrange(0, i as int)), name@),
        decreases i,
    {
        let ghost pre = vars_view(vars@.subrange(0, i as int));
        assert(pre.drop_last() =~= vars_view(vars@.subrange(0, i - 1)));
        if vars[i - 1].0 == *name {
            return Some(i - 1);
        }
        i -= 1;
    }
    None
}

/// The characters of `$(name)`.
fn reference_of(name: &String) -> (r: Vec<char>)
    ensures
        r@ == reference(name@),
{
    let mut v: Vec<char> = Vec::new();
    v.push('$');
    v.push('(');
    let cs = chars_of(name.as_str());
    push_all(&mut v, cs.as_slice());
    v.push(')');
    assert(v@ =~= reference(name@));
    v
}

/// Replaces the references to `names`, in turn, by their values in `vars`;
/// `None` if one of them has no value.
pub fn substitute_vars(file: &str, names: &Vec<String>, vars: &Vec<(String, String)>) -> (r: Option<String>)
    ensures
        r matches Some(t) ==> substitute(file@, names@.map_values(|n: String| n@), vars_view(vars@)) == Some(t@),
        r is None ==> substitute(file@, names@.map_values(|n: String| n@), vars_view(vars@)) is None,
{
    let ghost all = names@.map_values(|n: String| n@);
    let mut cur = chars_of(file);
    let mut i: usize = 0;
    assert(all.subrange(0, all.len() as int) =~= all);
    while i < names.len()
        invariant
            i <= names@.len(),
            all == names@.map_values(|n: String| n@),
            substitute(file@, all, vars_view(vars@)) == substitute(cur@, all.subrange(i as int, all.len() as int), vars_view(vars@)),
        decreases names@.len() - i,
    {
        let ghost rest = all.subrange(i as int, all.len() as int);
        assert(rest[0] == names@[i as int]@);
        assert(rest.subrange(1, rest.len() as int) =~= all.subrange(i + 1, all.len() as int));
        match lookup_var(vars, &names[i]) {
            None => return None,
            Some(k) => {
                let pat = reference_of(&names[i]);
                let rep = chars_of(vars[k].1.as_str());
                cur = replace_all_in(cur.as_slice(), pat.as_slice(), rep.as_slice());
            },
        }
        i += 1;
    }
    let n = cur.len();
    proof {
        assert(cur@.subrange(0, n as int) =~= cur@);
    }
    Some(string_of(cur.as_slice(), 0, n))
}

/// Replaces in `file` each `$(NAME)` by the value of `NAME` in `vars`; `None`
/// if a name that the path refers to has no value.
pub fn apply_vars(file: &str, vars: &Vec<(String, String)>) -> (r: Option<String>)
    ensures
        r matches Some(t) ==> substitute(file@, dollar_references(file@), vars_view(vars@)) == Some(t@),
        r is None ==> substitute(file@, dollar_references(file@), vars_view(vars@)) is None,
{
    let names = find_references(file);
    assert(names@.map_values(|n: String| n@) =~= dollar_references(file@));
    substitute_vars(file, &names, vars)
}

} // verus!
