//! Scanning primitives over a character sequence: each spec function gives the
//! position where a scan that starts at `i` stops, and each executable function
//! computes it.

use vstd::prelude::*;
use crate::text::{is_white, is_alnum, is_digit, white, letter_or_digit, digit, string_of};

verus! {

pub open spec fn is_ident_char(c: char) -> bool {
    is_alnum(c) || c == '_' || c == '.'
}

/// The first position at or after `i` that is not whitespace.
pub open spec fn skip_ws(s: Seq<char>, i: int) -> int
    decreases s.len() - i,
{
    if 0 <= i < s.len() && is_white(s[i]) {
        skip_ws(s, i + 1)
    } else {
        i
    }
}

/// The end of the run of identifier characters that starts at `i`.
pub open spec fn ident_end(s: Seq<char>, i: int) -> int
    decreases s.len() - i,
{
    if 0 <= i < s.len() && is_ident_char(s[i]) {
        ident_end(s, i + 1)
    } else {
        i
    }
}

/// The position of the first double quote at or after `i`, or the end of input.
pub open spec fn quote_end(s: Seq<char>, i: int) -> int
    decreases s.len() - i,
{
    if 0 <= i < s.len() && s[i] != '"' {
        quote_end(s, i + 1)
    } else {
        i
    }
}

/// The end of a numeric literal: digits with at most one dot, taken only when a digit follows it.
pub open spec fn number_end(s: Seq<char>, i: int, dot: bool) -> int
    decreases s.len() - i,
{
    if 0 <= i < s.len() && is_digit(s[i]) {
        number_end(s, i + 1, dot)
    } else if 0 <= i && i + 1 < s.len() && s[i] == '.' && !dot && is_digit(s[i + 1]) {
        number_end(s, i + 1, true)
    } else {
        i
    }
}

/// The position of the brace that closes an embedded expression, or the end of input.
/// Braces inside single- or double-quoted strings do not count; `depth` is the number
/// of braces still open and `delim` the quote of the string being read, if any.
pub open spec fn expr_end(s: Seq<char>, i: int, depth: int, delim: Option<char>) -> int
    decreases s.len() - i,
{
    if i < 0 || i >= s.len() {
        i
    } else {
        let c = s[i];
        if c == '"' || c == '\'' {
            if delim == Some(c) {
                expr_end(s, i + 1, depth, None)
            } else if delim is None {
                expr_end(s, i + 1, depth, Some(c))
            } else {
                expr_end(s, i + 1, depth, delim)
            }
        } else if c == '{' && delim is None {
            expr_end(s, i + 1, depth + 1, delim)
        } else if c == '}' && delim is None {
            if depth - 1 == 0 {
                i
            } else {
                expr_end(s, i + 1, depth - 1, delim)
            }
        } else {
            expr_end(s, i + 1, depth, delim)
        }
    }
}

/// The position of the first `<` or `{` at or after `i`, or the end of input.
pub open spec fn text_end(s: Seq<char>, i: int) -> int
    decreases s.len() - i,
{
    if 0 <= i < s.len() && s[i] != '<' && s[i] != '{' {
        text_end(s, i + 1)
    } else {
        i
    }
}

/// The first position in `[i, hi)` that is not whitespace, or `hi`.
pub open spec fn trim_lo(s: Seq<char>, i: int, hi: int) -> int
    decreases hi - i,
{
    if i < hi && is_white(s[i]) {
        trim_lo(s, i + 1, hi)
    } else {
        i
    }
}

/// The end of `[lo, j)` once trailing whitespace is dropped.
pub open spec fn trim_hi(s: Seq<char>, lo: int, j: int) -> int
    decreases j - lo,
{
    if lo < j && is_white(s[j - 1]) {
        trim_hi(s, lo, j - 1)
    } else {
        j
    }
}

/// The characters in `[lo, hi)` without leading and trailing whitespace.
pub open spec fn trimmed(s: Seq<char>, lo: int, hi: int) -> Seq<char> {
    let a = trim_lo(s, lo, hi);
    s.subrange(a, trim_hi(s, a, hi))
}

/// A sequence without leading and trailing whitespace.
pub open spec fn trim(s: Seq<char>) -> Seq<char> {
    trimmed(s, 0, s.len() as int)
}

pub proof fn lemma_skip_ws_stops(s: Seq<char>, i: int)
    requires
        0 <= i,
    ensures
        i <= skip_ws(s, i),
        0 <= skip_ws(s, i) < s.len() ==> !is_white(s[skip_ws(s, i)]),
    decreases s.len() - i,
{
    if 0 <= i < s.len() && is_white(s[i]) {
        lemma_skip_ws_stops(s, i + 1);
    }
}

pub fn skip_ws_at(s: &Vec<char>, i: usize) -> (r: usize)
    requires
        i <= s.len(),
    ensures
        r as int == skip_ws(s@, i as int),
        i <= r <= s.len(),
{
    let mut j = i;
    while j < s.len() && white(s[j])
        invariant
            i <= j <= s.len(),
            skip_ws(s@, j as int) == skip_ws(s@, i as int),
        decreases s.len() - j,
    {
        j = j + 1;
    }
    j
}

pub fn ident_end_at(s: &Vec<char>, i: usize) -> (r: usize)
    requires
        i <= s.len(),
    ensures
        r as int == ident_end(s@, i as int),
        i > 0 && is_ident_char(s@[i - 1]) ==> r as int == ident_end(s@, i - 1),
        i <= r <= s.len(),
{
    let mut j = i;
    while j < s.len() && (letter_or_digit(s[j]) || s[j] == '_' || s[j] == '.')
        invariant
            i <= j <= s.len(),
            ident_end(s@, j as int) == ident_end(s@, i as int),
        decreases s.len() - j,
    {
        j = j + 1;
    }
    j
}

pub fn quote_end_at(s: &Vec<char>, i: usize) -> (r: usize)
    requires
        i <= s.len(),
    ensures
        r as int == quote_end(s@, i as int),
        i <= r <= s.len(),
{
    let mut j = i;
    while j < s.len() && s[j] != '"'
        invariant
            i <= j <= s.len(),
            quote_end(s@, j as int) == quote_end(s@, i as int),
        decreases s.len() - j,
    {
        j = j + 1;
    }
    j
}

pub fn number_end_at(s: &Vec<char>, i: usize) -> (r: usize)
    requires
        i <= s.len(),
    ensures
        r as int == number_end(s@, i as int, false),
        i > 0 && is_digit(s@[i - 1]) ==> r as int == number_end(s@, i - 1, false),
        i <= r <= s.len(),
{
    let mut j = i;
    let mut dot = false;
    loop
        invariant
            i <= j <= s.len(),
            number_end(s@, j as int, dot) == number_end(s@, i as int, false),
        decreases s.len() - j,
    {
        if j < s.len() && digit(s[j]) {
            j = j + 1;
        } else if j < s.len() && j + 1 < s.len() && s[j] == '.' && !dot && digit(s[j + 1]) {
            j = j + 1;
            dot = true;
        } else {
            return j;
        }
    }
}

pub fn expr_end_at(s: &Vec<char>, i: usize) -> (r: usize)
    requires
        i <= s.len(),
    ensures
        r as int == expr_end(s@, i as int, 1, None),
        i <= r <= s.len(),
{
    let mut j = i;
    // braces open beyond the first one
    let mut extra: usize = 0;
    let mut delim: Option<char> = None;
    while j < s.len()
        invariant
            i <= j <= s.len(),
            extra <= j - i,
            expr_end(s@, j as int, extra + 1, delim) == expr_end(s@, i as int, 1, None),
        decreases s.len() - j,
    {
        let c = s[j];
        if c == '"' || c == '\'' {
            if delim == Some(c) {
                delim = None;
            } else if delim.is_none() {
                delim = Some(c);
            }
        } else if c == '{' && delim.is_none() {
            extra = extra + 1;
        } else if c == '}' && delim.is_none() {
            if extra == 0 {
                return j;
            }
            extra = extra - 1;
        }
        j = j + 1;
    }
    j
}

pub fn text_end_at(s: &Vec<char>, i: usize) -> (r: usize)
    requires
        i <= s.len(),
    ensures
        r as int == text_end(s@, i as int),
        i <= r <= s.len(),
{
    let mut j = i;
    while j < s.len() && s[j] != '<' && s[j] != '{'
        invariant
            i <= j <= s.len(),
            text_end(s@, j as int) == text_end(s@, i as int),
        decreases s.len() - j,
    {
        j = j + 1;
    }
    j
}

/// The characters in `[lo, hi)` as a string.
pub fn substring(s: &Vec<char>, lo: usize, hi: usize) -> (r: String)
    requires
        lo <= hi <= s.len(),
    ensures
        r@ == s@.subrange(lo as int, hi as int),
{
    let mut v: Vec<char> = Vec::new();
    let mut j = lo;
    while j < hi
        invariant
            lo <= j <= hi <= s.len(),
            v@ == s@.subrange(lo as int, j as int),
        decreases hi - j,
    {
        v.push(s[j]);
        j = j + 1;
        assert(v@ =~= s@.subrange(lo as int, j as int));
    }
    string_of(v.as_slice())
}

/// The characters in `[lo, hi)` without leading and trailing whitespace.
pub fn trimmed_at(s: &Vec<char>, lo: usize, hi: usize) -> (r: String)
    requires
        lo <= hi <= s.len(),
    ensures
        r@ == trimmed(s@, lo as int, hi as int),
{
    let mut a = lo;
    while a < hi && white(s[a])
        invariant
            lo <= a <= hi,
            hi <= s.len(),
            trim_lo(s@, a as int, hi as int) == trim_lo(s@, lo as int, hi as int),
        decreases hi - a,
    {
        a = a + 1;
    }
    let mut b = hi;
    while a < b && white(s[b - 1])
        invariant
            a <= b <= hi,
            hi <= s.len(),
            trim_hi(s@, a as int, b as int) == trim_hi(s@, a as int, hi as int),
        decreases b - a,
    {
        b = b - 1;
    }
    substring(s, a, b)
}

/// A string without leading and trailing whitespace.
pub fn trim_string(t: &str) -> (r: String)
    ensures
        r@ == trim(t@),
{
    let v = crate::text::chars_of(t);
    trimmed_at(&v, 0, v.len())
}

/// Whether the characters in `[lo, hi)` spell `word`.
pub fn spells(s: &Vec<char>, lo: usize, hi: usize, word: &str) -> (r: bool)
    requires
        lo <= hi <= s.len(),
    ensures
        r == (s@.subrange(lo as int, hi as int) == word@),
{
    let n = word.unicode_len();
    if hi - lo != n {
        return false;
    }
    let mut k: usize = 0;
    while k < n
        invariant
            k <= n,
            n == word@.len(),
            hi - lo == n,
            lo <= hi <= s.len(),
            forall|m: int| 0 <= m < k ==> s@[lo + m] == word@[m],
        decreases n - k,
    {
        if s[lo + k] != word.get_char(k) {
            assert(s@.subrange(lo as int, hi as int)[k as int] != word@[k as int]);
            return false;
        }
        k = k + 1;
    }
    assert(s@.subrange(lo as int, hi as int) =~= word@);
    true
}

} // verus!
