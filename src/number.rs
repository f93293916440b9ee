//! Signed decimal integers.

use vstd::prelude::*;
use crate::text::{digit, is_digit, lemma_run_end, run_end};
use crate::{mismatch, PResult};

verus! {

/// The value of a run of decimal digits.
pub open spec fn digits_value(d: Seq<char>) -> int
    decreases d.len(),
{
    if d.len() == 0 {
        0
    } else {
        digits_value(d.drop_last()) * 10 + (d.last() as int - '0' as int)
    }
}

/// Where the digits of a number at `pos` begin: after an optional `-`.
pub open spec fn number_digits_start(s: Seq<char>, pos: int) -> int {
    if 0 <= pos < s.len() && s[pos] == '-' {
        pos + 1
    } else {
        pos
    }
}

pub open spec fn digit_chars() -> spec_fn(char) -> bool {
    |c: char| is_digit(c)
}

pub open spec fn number_end(s: Seq<char>, pos: int) -> int {
    run_end(s, number_digits_start(s, pos), digit_chars())
}

/// The value of the number at `pos`, sign included.
pub open spec fn number_value(s: Seq<char>, pos: int) -> int {
    let v = digits_value(s.subrange(number_digits_start(s, pos), number_end(s, pos)));
    if number_digits_start(s, pos) > pos {
        -v
    } else {
        v
    }
}

/// Whether a number that fits in 64 signed bits stands at `pos`.
pub open spec fn number_at(s: Seq<char>, pos: int) -> bool {
    number_end(s, pos) > number_digits_start(s, pos) && i64::MIN <= number_value(s, pos)
        <= i64::MAX
}

proof fn lemma_digits_step(d: Seq<char>, c: char)
    ensures
        digits_value(d.push(c)) == digits_value(d) * 10 + (c as int - '0' as int),
{
    assert(d.push(c).drop_last() =~= d);
}

proof fn lemma_digits_grow(s: Seq<char>, a: int, i: int, j: int)
    requires
        0 <= a <= i <= j <= s.len(),
        forall|k: int| a <= k < j ==> is_digit(#[trigger] s[k]),
    ensures
        digits_value(s.subrange(a, i)) <= digits_value(s.subrange(a, j)),
        digits_value(s.subrange(a, i)) >= 0,
    decreases j - i,
{
    if i < j {
        lemma_digits_grow(s, a, i, j - 1);
        assert(s.subrange(a, j) =~= s.subrange(a, j - 1).push(s[j - 1]));
        lemma_digits_step(s.subrange(a, j - 1), s[j - 1]);
    } else {
        lemma_digits_nonneg(s, a, i);
    }
}

proof fn lemma_digits_nonneg(s: Seq<char>, a: int, i: int)
    requires
        0 <= a <= i <= s.len(),
        forall|k: int| a <= k < i ==> is_digit(#[trigger] s[k]),
    ensures
        digits_value(s.subrange(a, i)) >= 0,
    decreases i - a,
{
    if i > a {
        lemma_digits_nonneg(s, a, i - 1);
        assert(s.subrange(a, i) =~= s.subrange(a, i - 1).push(s[i - 1]));
        lemma_digits_step(s.subrange(a, i - 1), s[i - 1]);
    } else {
        assert(s.subrange(a, i).len() == 0);
    }
}

/// Reads a decimal integer with an optional leading `-`, with no blanks before it.
/// Fails where there are no digits, or where the value does not fit in an `i64`.
pub fn parse_number(s: &[char], pos: usize) -> (r: PResult<i64>)
    requires
        pos <= s@.len(),
    ensures
        r is Ok <==> number_at(s@, pos as int),
        r matches Ok((e, v)) ==> e == number_end(s@, pos as int) && v == number_value(
            s@,
            pos as int,
        ),
        r matches Err(err) ==> err.kind is Mismatch,
        crate::advances(r, s@, pos as int),
{
    let neg = pos < s.len() && s[pos] == '-';
    let d0 = if neg {
        pos + 1
    } else {
        pos
    };
    let limit: u64 = if neg {
        9223372036854775808
    } else {
        9223372036854775807
    };
    let mut i = d0;
    let mut mag: u64 = 0;
    let mut over = false;
    while i < s.len() && digit(s[i])
        invariant
            d0 <= i <= s@.len(),
            d0 == number_digits_start(s@, pos as int),
            limit >= 9223372036854775807,
            limit <= 9223372036854775808,
            run_end(s@, i as int, digit_chars()) == number_end(s@, pos as int),
            forall|k: int| d0 <= k < i ==> is_digit(#[trigger] s@[k]),
            !over ==> mag == digits_value(s@.subrange(d0 as int, i as int)) && mag <= limit,
            over ==> digits_value(s@.subrange(d0 as int, i as int)) > limit,
        decreases s@.len() - i,
    {
        let d = (s[i] as u32 - '0' as u32) as u64;
        proof {
            assert(s@.subrange(d0 as int, i + 1) =~= s@.subrange(d0 as int, i as int).push(s@[i as int]));
            lemma_digits_step(s@.subrange(d0 as int, i as int), s@[i as int]);
            lemma_digits_nonneg(s@, d0 as int, i as int);
        }
        if !over {
            if mag > (limit - d) / 10 {
                assert(mag * 10 + d > limit) by (nonlinear_arith)
                    requires mag > (limit - d) / 10, d <= 9, limit >= 9;
                over = true;
            } else {
                assert(mag * 10 + d <= limit) by (nonlinear_arith)
                    requires mag <= (limit - d) / 10, d <= 9, limit >= 9;
                mag = mag * 10 + d;
            }
        }
        i += 1;
    }
    proof {
        lemma_run_end(s@, d0 as int, digit_chars());
    }
    if i == d0 || over {
        return mismatch(pos);
    }
    let v: i64 = if neg {
        if mag == 9223372036854775808 {
            -9223372036854775808i64
        } else {
            -(mag as i64)
        }
    } else {
        mag as i64
    };
    Ok((i, v))
}

/// Reads the whole of `t` as a decimal integer; `None` unless all of it is one.
pub fn string_to_number(t: &[char]) -> (r: Option<i64>)
    ensures
        r is Some <==> number_at(t@, 0) && number_end(t@, 0) == t@.len(),
        r matches Some(v) ==> v == number_value(t@, 0),
{
    match parse_number(t, 0) {
        Ok((e, v)) => if e == t.len() {
            Some(v)
        } else {
            None
        },
        Err(_) => None,
    }
}

} // verus!

verus! {

/// The decimal digits of a natural number.
pub open spec fn digits_of(n: nat) -> Seq<char>
    decreases n,
{
    if n < 10 {
        seq![((n + 48) as u32) as char]
    } else {
        digits_of(n / 10).push((((n % 10) + 48) as u32) as char)
    }
}

/// The decimal text of an integer, with `-` before a negative one.
pub open spec fn decimal_text(n: int) -> Seq<char> {
    if n < 0 {
        seq!['-'] + digits_of((-n) as nat)
    } else {
        digits_of(n as nat)
    }
}

/// The digit character of a value below ten.
fn digit_char(d: u64) -> (r: char)
    requires
        d < 10,
    ensures
        r == ((d + 48) as u32) as char,
{
    if d == 0 { '0' } else if d == 1 { '1' } else if d == 2 { '2' } else if d == 3 { '3' }
    else if d == 4 { '4' } else if d == 5 { '5' } else if d == 6 { '6' } else if d == 7 { '7' }
    else if d == 8 { '8' } else { '9' }
}

/// The decimal digits of `n`, as characters.
fn digits(n: u64) -> (r: Vec<char>)
    ensures
        r@ == digits_of(n as nat),
    decreases n,
{
    if n < 10 {
        let mut v: Vec<char> = Vec::new();
        v.push(digit_char(n));
        v
    } else {
        let mut v = digits(n / 10);
        v.push(digit_char(n % 10));
        v
    }
}

/// The decimal text of `n`.
pub fn decimal(n: i64) -> (r: String)
    ensures
        r@ == decimal_text(n as int),
{
    if n < 0 {
        let m: u64 = if n == i64::MIN {
            9223372036854775808
        } else {
            (-n) as u64
        };
        let mut v: Vec<char> = Vec::new();
        v.push('-');
        let d = digits(m);
        let mut i: usize = 0;
        while i < d.len()
            invariant
                i <= d@.len(),
                v@ == seq!['-'] + d@.subrange(0, i as int),
            decreases d@.len() - i,
        {
            v.push(d[i]);
            i += 1;
            assert(v@ =~= seq!['-'] + d@.subrange(0, i as int));
        }
        assert(d@.subrange(0, d@.len() as int) =~= d@);
        let len = v.len();
        crate::text::string_of(v.as_slice(), 0, len)
    } else {
        let d = digits(n as u64);
        let len = d.len();
        proof {
            assert(d@.subrange(0, len as int) =~= d@);
        }
        crate::text::string_of(d.as_slice(), 0, len)
    }
}

} // verus!
