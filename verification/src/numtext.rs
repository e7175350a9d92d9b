//! Decimal text for the numeric token payloads and diagnostics.

use vstd::prelude::*;

verus! {

/// The character for one decimal digit.
pub open spec fn spec_digit(d: int) -> char {
    ((48 + d) as u8) as char
}

/// The decimal digit sequence of a natural number, most significant first.
pub open spec fn spec_nat_str(n: nat) -> Seq<char>
    decreases n,
{
    if n < 10 {
        seq![spec_digit(n as int)]
    } else {
        spec_nat_str(n / 10) + seq![spec_digit((n % 10) as int)]
    }
}

/// The decimal text of a signed number: a minus sign, then the magnitude.
pub open spec fn spec_int_str(n: int) -> Seq<char> {
    if n < 0 {
        seq!['-'] + spec_nat_str((-n) as nat)
    } else {
        spec_nat_str(n as nat)
    }
}

fn digit_str(d: u32) -> (s: &'static str)
    requires
        d < 10,
    ensures
        s@ == seq![spec_digit(d as int)],
{
    let s: &'static str = if d == 0 {
        "0"
    } else if d == 1 {
        "1"
    } else if d == 2 {
        "2"
    } else if d == 3 {
        "3"
    } else if d == 4 {
        "4"
    } else if d == 5 {
        "5"
    } else if d == 6 {
        "6"
    } else if d == 7 {
        "7"
    } else if d == 8 {
        "8"
    } else {
        "9"
    };
    proof {
        reveal_strlit("0");
        reveal_strlit("1");
        reveal_strlit("2");
        reveal_strlit("3");
        reveal_strlit("4");
        reveal_strlit("5");
        reveal_strlit("6");
        reveal_strlit("7");
        reveal_strlit("8");
        reveal_strlit("9");
        assert(s@ =~= seq![spec_digit(d as int)]);
    }
    s
}

/// The decimal text of a `u32`.
pub fn u32_str(n: u32) -> (s: String)
    ensures
        s@ == spec_nat_str(n as nat),
    decreases n,
{
    if n < 10 {
        digit_str(n).to_owned()
    } else {
        let mut s = u32_str(n / 10);
        s.append(digit_str(n % 10));
        s
    }
}

/// The decimal text of an `i16`, with a leading minus sign when negative.
pub fn i16_str(n: i16) -> (s: String)
    ensures
        s@ == spec_int_str(n as int),
{
    if n < 0 {
        let mag: u32 = (-(n as i32)) as u32;
        let mut s = "-".to_owned();
        let mag_str = u32_str(mag);
        s.append(mag_str.as_str());
        proof {
            reveal_strlit("-");
            assert(s@ =~= spec_int_str(n as int));
        }
        s
    } else {
        u32_str(n as u32)
    }
}

} // verus!
