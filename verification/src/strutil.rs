//! Character-level helpers shared by the lexer, the symbol resolver and
//! the encoder.

use vstd::prelude::*;
use vstd::string::StrSliceExecFns;

verus! {

/// Collects the characters of a string slice into a vector.
pub fn chars_of(s: &str) -> (r: Vec<char>)
    ensures
        r@ == s@,
{
    let n = s.unicode_len();
    let mut r: Vec<char> = Vec::new();
    let mut i: usize = 0;
    while i < n
        invariant
            n == s@.len(),
            i <= n,
            r@ == s@.subrange(0, i as int),
        decreases n - i,
    {
        r.push(s.get_char(i));
        proof {
            assert(r@ =~= s@.subrange(0, i + 1));
        }
        i = i + 1;
    }
    proof {
        assert(r@ =~= s@);
    }
    r
}

/// Whether two characters are the same letter up to ASCII case.
pub open spec fn spec_char_ci(a: char, b: char) -> bool {
    a == b || (97 <= a as u32 <= 122 && a as u32 - 32 == b as u32) || (97 <= b as u32 <= 122
        && b as u32 - 32 == a as u32)
}

fn char_eq_ci(a: char, b: char) -> (r: bool)
    ensures
        r == spec_char_ci(a, b),
{
    let x = a as u32;
    let y = b as u32;
    x == y || (97 <= x && x <= 122 && x - 32 == y) || (97 <= y && y <= 122 && y - 32 == x)
}

/// Whether two character sequences agree up to ASCII case.
pub open spec fn spec_eq_ci(a: Seq<char>, b: Seq<char>) -> bool {
    a.len() == b.len() && forall|i: int| 0 <= i < a.len() ==> spec_char_ci(a[i], b[i])
}

/// Compares a character vector with a string slice, ignoring ASCII case.
pub fn eq_ignore_ascii_case(s: &Vec<char>, t: &str) -> (r: bool)
    ensures
        r == spec_eq_ci(s@, t@),
{
    let n = t.unicode_len();
    if s.len() != n {
        return false;
    }
    let mut i: usize = 0;
    while i < n
        invariant
            n == t@.len(),
            s@.len() == n,
            i <= n,
            forall|k: int| 0 <= k < i ==> spec_char_ci(s@[k], t@[k]),
        decreases n - i,
    {
        if !char_eq_ci(s[i], t.get_char(i)) {
            return false;
        }
        i = i + 1;
    }
    true
}

/// Whether a character is an ASCII decimal digit.
pub open spec fn spec_is_digit(c: char) -> bool {
    48 <= c as u32 <= 57
}

pub fn is_digit(c: char) -> (r: bool)
    ensures
        r == spec_is_digit(c),
{
    let u = c as u32;
    48 <= u && u <= 57
}

/// Whether a character is an ASCII letter.
pub open spec fn spec_is_alpha(c: char) -> bool {
    (65 <= c as u32 <= 90) || (97 <= c as u32 <= 122)
}

pub fn is_alpha(c: char) -> (r: bool)
    ensures
        r == spec_is_alpha(c),
{
    let u = c as u32;
    (65 <= u && u <= 90) || (97 <= u && u <= 122)
}

/// Whether a character may stand in an identifier, a label or a
/// subroutine name: a letter, a digit or an underscore.
pub open spec fn spec_is_word_char(c: char) -> bool {
    spec_is_alpha(c) || spec_is_digit(c) || c == '_'
}

pub fn is_word_char(c: char) -> (r: bool)
    ensures
        r == spec_is_word_char(c),
{
    is_alpha(c) || is_digit(c) || c == '_'
}

/// The numeric value of one digit character.
pub open spec fn spec_digit_val(c: char) -> int {
    c as u32 - 48
}

/// The value of a digit sequence read in decimal, most significant
/// digit first.
pub open spec fn spec_dec_val(s: Seq<char>) -> int
    decreases s.len(),
{
    if s.len() == 0 {
        0
    } else {
        spec_dec_val(s.drop_last()) * 10 + spec_digit_val(s.last())
    }
}

/// Whether every character of a sequence is a decimal digit.
pub open spec fn spec_all_digits(s: Seq<char>) -> bool {
    forall|i: int| 0 <= i < s.len() ==> spec_is_digit(s[i])
}

/// Reads a digit vector in decimal.  Fails (`None`) on an empty vector,
/// and on a value above `u16::MAX`.
pub fn parse_dec_u16(s: &Vec<char>) -> (r: Option<u16>)
    requires
        spec_all_digits(s@),
    ensures
        match r {
            Some(v) => s@.len() > 0 && spec_dec_val(s@) == v as int,
            None => s@.len() == 0 || spec_dec_val(s@) > u16::MAX,
        },
{
    if s.len() == 0 {
        return None;
    }
    let mut acc: u32 = 0;
    let mut i: usize = 0;
    while i < s.len()
        invariant
            i <= s@.len(),
            spec_all_digits(s@),
            acc as int == spec_dec_val(s@.subrange(0, i as int)),
            acc <= u16::MAX,
        decreases s@.len() - i,
    {
        let d = s[i] as u32;
        proof {
            assert(spec_is_digit(s@[i as int]));
            assert(s@.subrange(0, i + 1).drop_last() =~= s@.subrange(0, i as int));
            assert(s@.subrange(0, i + 1).last() == s@[i as int]);
        }
        acc = acc * 10 + (d - 48);
        if acc > 65535 {
            proof {
                lemma_dec_val_grows(s@, i + 1);
            }
            return None;
        }
        i = i + 1;
    }
    proof {
        assert(s@.subrange(0, s@.len() as int) =~= s@);
    }
    Some(acc as u16)
}


/// Whether a character is line whitespace.
pub open spec fn spec_is_ws(c: char) -> bool {
    c == ' ' || c == '\t'
}

pub fn is_ws(c: char) -> (r: bool)
    ensures
        r == spec_is_ws(c),
{
    c == ' ' || c == '\t'
}

/// The first position at or after `j` that does not hold a digit.
pub open spec fn spec_digits_end(s: Seq<char>, j: int) -> int
    decreases s.len() - j,
{
    if j < 0 || j >= s.len() || !spec_is_digit(s[j]) {
        j
    } else {
        spec_digits_end(s, j + 1)
    }
}

pub fn digits_end(s: &Vec<char>, j: usize) -> (r: usize)
    requires
        j <= s@.len(),
    ensures
        r == spec_digits_end(s@, j as int),
        j <= r <= s@.len(),
        forall|k: int| j <= k < r ==> spec_is_digit(s@[k]),
    decreases s@.len() - j,
{
    if j >= s.len() || !is_digit(s[j]) {
        j
    } else {
        digits_end(s, j + 1)
    }
}

/// The first position at or after `j` that does not hold a word
/// character (letter, digit or underscore).
pub open spec fn spec_word_end(s: Seq<char>, j: int) -> int
    decreases s.len() - j,
{
    if j < 0 || j >= s.len() || !spec_is_word_char(s[j]) {
        j
    } else {
        spec_word_end(s, j + 1)
    }
}

pub fn word_end(s: &Vec<char>, j: usize) -> (r: usize)
    requires
        j <= s@.len(),
    ensures
        r == spec_word_end(s@, j as int),
        j <= r <= s@.len(),
    decreases s@.len() - j,
{
    if j >= s.len() || !is_word_char(s[j]) {
        j
    } else {
        word_end(s, j + 1)
    }
}

/// The position of the first quote character at or after `j`; the
/// sequence's length when there is none.
pub open spec fn spec_quote_end(s: Seq<char>, j: int) -> int
    decreases s.len() - j,
{
    if j < 0 || j >= s.len() || s[j] == '\'' {
        j
    } else {
        spec_quote_end(s, j + 1)
    }
}

pub fn quote_end(s: &Vec<char>, j: usize) -> (r: usize)
    requires
        j <= s@.len(),
    ensures
        r == spec_quote_end(s@, j as int),
        j <= r <= s@.len(),
    decreases s@.len() - j,
{
    if j >= s.len() || s[j] == '\'' {
        j
    } else {
        quote_end(s, j + 1)
    }
}

/// The first position in `j..end` that is not whitespace; `end` when
/// all of it is.
pub open spec fn spec_skip_ws(s: Seq<char>, end: int, j: int) -> int
    decreases end - j,
{
    if j < 0 || j >= end || j >= s.len() || !spec_is_ws(s[j]) {
        j
    } else {
        spec_skip_ws(s, end, j + 1)
    }
}

pub fn skip_ws(s: &Vec<char>, end: usize, j: usize) -> (r: usize)
    requires
        j <= end <= s@.len(),
    ensures
        r == spec_skip_ws(s@, end as int, j as int),
        j <= r <= end,
    decreases end - j,
{
    if j >= end || !is_ws(s[j]) {
        j
    } else {
        skip_ws(s, end, j + 1)
    }
}

/// Copies one span of a character vector.
pub fn copy_span(s: &Vec<char>, from: usize, to: usize) -> (r: Vec<char>)
    requires
        from <= to <= s@.len(),
    ensures
        r@ == s@.subrange(from as int, to as int),
{
    let mut out: Vec<char> = Vec::new();
    let mut i: usize = from;
    while i < to
        invariant
            from <= i <= to <= s@.len(),
            out@ == s@.subrange(from as int, i as int),
        decreases to - i,
    {
        out.push(s[i]);
        proof {
            assert(out@ =~= s@.subrange(from as int, i + 1));
        }
        i = i + 1;
    }
    out
}

/// A decimal value only grows as digits are appended.
proof fn lemma_dec_val_grows(s: Seq<char>, i: int)
    requires
        0 < i <= s.len(),
        spec_all_digits(s),
        spec_dec_val(s.subrange(0, i)) > u16::MAX,
    ensures
        spec_dec_val(s) > u16::MAX,
    decreases s.len() - i,
{
    if i == s.len() {
        assert(s.subrange(0, i) =~= s);
    } else {
        assert(s.subrange(0, i + 1).drop_last() =~= s.subrange(0, i));
        assert(spec_dec_val(s.subrange(0, i + 1)) == spec_dec_val(s.subrange(0, i)) * 10
            + spec_digit_val(s.subrange(0, i + 1).last()));
        assert(spec_dec_val(s.subrange(0, i + 1)) > u16::MAX);
        lemma_dec_val_grows(s, i + 1);
    }
}

} // verus!
