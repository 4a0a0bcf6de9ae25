//! Small verified text utilities: string equality, decimal formatting and
//! space-separated tokenization, used by the encoder negotiator and the
//! command-line builders.

use vstd::prelude::*;

verus! {

/// Compares two strings character by character.
pub fn str_eq(a: &str, b: &str) -> (r: bool)
    ensures
        r == (a@ == b@),
{
    let la = a.unicode_len();
    let lb = b.unicode_len();
    if la != lb {
        return false;
    }
    for i in 0..la
        invariant
            la == a@.len(),
            la == b@.len(),
            forall|j: int| 0 <= j < i ==> a@[j] == b@[j],
    {
        if a.get_char(i) != b.get_char(i) {
            return false;
        }
    }
    proof {
        assert(a@ =~= b@);
    }
    true
}

/// The decimal digit character of `d`.
pub open spec fn digit_char(d: int) -> char {
    if d == 0 { '0' }
    else if d == 1 { '1' }
    else if d == 2 { '2' }
    else if d == 3 { '3' }
    else if d == 4 { '4' }
    else if d == 5 { '5' }
    else if d == 6 { '6' }
    else if d == 7 { '7' }
    else if d == 8 { '8' }
    else { '9' }
}

/// The decimal digit string of a non-negative integer, most significant
/// digit first, with no leading zeros (and "0" for zero).
pub open spec fn dec_str(n: int) -> Seq<char>
    decreases n,
{
    if n <= 9 {
        seq![digit_char(if n < 0 { 0 } else { n })]
    } else {
        dec_str(n / 10).push(digit_char(n % 10))
    }
}

/// The one-character string of a decimal digit.
fn digit_str(d: u64) -> (r: &'static str)
    requires
        d <= 9,
    ensures
        r@ == seq![digit_char(d as int)],
{
    proof {
        reveal_strlit("0");
        reveal_strlit("1");
        reveal_strlit("2");
        reveal_strlit("3");
        reveal_strlit("4");
        reveal_strlit("5");
        reveal_strlit("6");
        reveal_strlit("7");
        reveal_strlit("8");
        reveal_strlit("9");
    }
    match d {
        0 => "0",
        1 => "1",
        2 => "2",
        3 => "3",
        4 => "4",
        5 => "5",
        6 => "6",
        7 => "7",
        8 => "8",
        _ => "9",
    }
}

/// Formats a non-negative integer in decimal.
pub fn u64_to_string(n: u64) -> (r: String)
    ensures
        r@ == dec_str(n as int),
    decreases n,
{
    if n <= 9 {
        String::from_str(digit_str(n))
    } else {
        let high = u64_to_string(n / 10);
        high.concat(digit_str(n % 10))
    }
}

/// The digit string of `n` padded with leading zeros to `width` digits;
/// `n` must fit in that many digits.
pub open spec fn dec_str_pad(n: int, width: int) -> Seq<char>
    decreases width,
{
    if width <= 1 {
        seq![digit_char(n)]
    } else {
        dec_str_pad(n / 10, width - 1).push(digit_char(n % 10))
    }
}

/// Formats `n` as exactly three decimal digits, zero padded.
pub fn three_digits(n: u64) -> (r: String)
    requires
        n <= 999,
    ensures
        r@ == dec_str_pad(n as int, 3),
{
    proof {
        assert((n as int / 10) / 10 == n as int / 100) by (nonlinear_arith)
            requires n >= 0;
    }
    let s = String::from_str(digit_str(n / 100));
    let s = s.concat(digit_str(n / 10 % 10));
    let r = s.concat(digit_str(n % 10));
    proof {
        reveal_with_fuel(dec_str_pad, 4);
        assert(r@ =~= dec_str_pad(n as int, 3));
    }
    r
}

/// The decimal string of a millisecond count rendered in seconds with three
/// fractional digits.
pub open spec fn sec_str(ms: int) -> Seq<char> {
    dec_str(ms / 1000) + seq!['.'] + dec_str_pad(ms % 1000, 3)
}

/// Formats a millisecond count as seconds with three fractional digits.
pub fn ms_to_sec_string(ms: u64) -> (r: String)
    ensures
        r@ == sec_str(ms as int),
{
    proof {
        reveal_strlit(".");
    }
    let whole = u64_to_string(ms / 1000);
    let s = whole.concat(".");
    let frac = three_digits(ms % 1000);
    s.concat(frac.as_str())
}

/// Length of the leading run of non-space characters.
pub open spec fn token_end(s: Seq<char>) -> int
    decreases s.len(),
{
    if s.len() == 0 || s[0] == ' ' {
        0
    } else {
        1 + token_end(s.subrange(1, s.len() as int))
    }
}

/// The space-separated tokens of a string, in order; runs of spaces
/// separate, leading and trailing spaces are ignored.
pub open spec fn tokens(s: Seq<char>) -> Seq<Seq<char>>
    decreases s.len(),
{
    if s.len() == 0 {
        Seq::empty()
    } else if s[0] == ' ' {
        tokens(s.subrange(1, s.len() as int))
    } else {
        let e = token_end(s);
        let e1 = if e < 1 {
            1
        } else if e > s.len() {
            s.len() as int
        } else {
            e
        };
        seq![s.subrange(0, e1)] + tokens(s.subrange(e1, s.len() as int))
    }
}

/// `token_end` stays within the string.
proof fn lemma_token_end_le(s: Seq<char>)
    ensures
        0 <= token_end(s) <= s.len(),
    decreases s.len(),
{
    if s.len() != 0 && s[0] != ' ' {
        lemma_token_end_le(s.subrange(1, s.len() as int));
    }
}

/// Length of the leading token of a string slice.
fn token_end_exec(s: &str) -> (e: usize)
    ensures
        e == token_end(s@),
    decreases s@.len(),
{
    let len = s.unicode_len();
    if len == 0 {
        return 0;
    }
    if s.get_char(0) == ' ' {
        return 0;
    }
    let rest = s.substring_char(1, len);
    let e = token_end_exec(rest);
    proof {
        lemma_token_end_le(rest@);
    }
    1 + e
}

/// Splits a string into its space-separated tokens.
pub fn split_spaces(s: &str) -> (r: Vec<String>)
    ensures
        r.deep_view() == tokens(s@),
    decreases s@.len(),
{
    let len = s.unicode_len();
    if len == 0 {
        let r: Vec<String> = Vec::new();
        proof {
            assert(r.deep_view() =~= tokens(s@));
        }
        return r;
    }
    if s.get_char(0) == ' ' {
        let r = split_spaces(s.substring_char(1, len));
        proof {
            assert(r.deep_view() =~= tokens(s@));
        }
        return r;
    }
    let e = token_end_exec(s);
    proof {
        lemma_token_end_le(s@);
        lemma_token_end_le(s@.subrange(1, s@.len() as int));
        assert(e >= 1);
    }
    let tok = String::from_str(s.substring_char(0, e));
    let mut r = split_spaces(s.substring_char(e, len));
    r.insert(0, tok);
    proof {
        assert(r.deep_view() =~= tokens(s@));
    }
    r
}

/// An ASCII capital letter folded to lower case; any other character is
/// kept as it is.
pub open spec fn lower_char(c: char) -> char {
    if 'A' <= c <= 'Z' {
        ((c as u8) + 32) as char
    } else {
        c
    }
}

/// A string with its ASCII capital letters folded to lower case.
pub open spec fn lower(s: Seq<char>) -> Seq<char> {
    Seq::new(s.len(), |i: int| lower_char(s[i]))
}

/// Compares two strings with ASCII capital letters folded to lower case.
pub fn eq_ignore_ascii_case(a: &str, b: &str) -> (r: bool)
    ensures
        r == (lower(a@) == lower(b@)),
{
    let la = a.unicode_len();
    let lb = b.unicode_len();
    if la != lb {
        proof {
            assert(lower(a@).len() != lower(b@).len());
        }
        return false;
    }
    for i in 0..la
        invariant
            la == a@.len(),
            la == b@.len(),
            forall|j: int| 0 <= j < i ==> lower_char(a@[j]) == lower_char(b@[j]),
    {
        let ca = a.get_char(i);
        let cb = b.get_char(i);
        let fa: u32 = if 'A' <= ca && ca <= 'Z' {
            ca as u32 + 32
        } else {
            ca as u32
        };
        let fb: u32 = if 'A' <= cb && cb <= 'Z' {
            cb as u32 + 32
        } else {
            cb as u32
        };
        if fa != fb {
            proof {
                assert(lower_char(a@[i as int]) != lower_char(b@[i as int]));
                assert(lower(a@)[i as int] != lower(b@)[i as int]);
            }
            return false;
        }
        proof {
            assert(lower_char(a@[i as int]) == lower_char(b@[i as int]));
        }
    }
    proof {
        assert(lower(a@) =~= lower(b@));
    }
    true
}

/// The `k`-th space-separated token of a string, if it has that many.
pub open spec fn nth_token(s: Seq<char>, k: int) -> Option<Seq<char>> {
    if 0 <= k < tokens(s).len() {
        Option::Some(tokens(s)[k])
    } else {
        Option::None
    }
}

/// Returns the `k`-th space-separated token of a string, if it has that
/// many.
pub fn get_token(s: &str, k: usize) -> (r: Option<String>)
    ensures
        match r {
            Option::Some(t) => nth_token(s@, k as int) == Option::Some(t@),
            Option::None => nth_token(s@, k as int) is None,
        },
{
    let toks = split_spaces(s);
    if k < toks.len() {
        let t = toks[k].clone();
        proof {
            assert(toks.deep_view()[k as int] == toks@[k as int]@);
        }
        Some(t)
    } else {
        None
    }
}

} // verus!
