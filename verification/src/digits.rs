//! Decimal rendering of integers, specified character by character.

use vstd::prelude::*;

verus! {

/// The decimal digit character for `d`.
pub open spec fn digit_char(d: int) -> char {
    if d == 0 {
        '0'
    } else if d == 1 {
        '1'
    } else if d == 2 {
        '2'
    } else if d == 3 {
        '3'
    } else if d == 4 {
        '4'
    } else if d == 5 {
        '5'
    } else if d == 6 {
        '6'
    } else if d == 7 {
        '7'
    } else if d == 8 {
        '8'
    } else {
        '9'
    }
}

/// The decimal digits of `n`, most significant first, without sign and
/// without leading zeros (a single `0` for zero itself).
pub open spec fn dec_nat(n: nat) -> Seq<char>
    decreases n,
{
    if n < 10 {
        seq![digit_char(n as int)]
    } else {
        dec_nat(n / 10) + seq![digit_char((n % 10) as int)]
    }
}

/// The decimal rendering of `v`: a minus sign for a negative value, then the
/// digits of its magnitude.
pub open spec fn dec_i64(v: i64) -> Seq<char> {
    if v < 0 {
        seq!['-'] + dec_nat((-(v as int)) as nat)
    } else {
        dec_nat(v as nat)
    }
}

/// The decimal digit character for `d`, as a one-character string.
fn digit_str(d: u64) -> (s: &'static str)
    requires
        d < 10,
    ensures
        s@ == seq![digit_char(d as int)],
{
    proof {
        reveal_strlit("0");
        reveal_strlit("1");
        reveal_strlit("2");
        reveal_strlit("3");
        reveal_strlit("4");
        reveal_strlit("5");
        reveal_strlit("6");
        reveal_strlit("7");
        reveal_strlit("8");
        reveal_strlit("9");
        assert(seq![digit_char(0)] =~= "0"@);
        assert(seq![digit_char(1)] =~= "1"@);
        assert(seq![digit_char(2)] =~= "2"@);
        assert(seq![digit_char(3)] =~= "3"@);
        assert(seq![digit_char(4)] =~= "4"@);
        assert(seq![digit_char(5)] =~= "5"@);
        assert(seq![digit_char(6)] =~= "6"@);
        assert(seq![digit_char(7)] =~= "7"@);
        assert(seq![digit_char(8)] =~= "8"@);
        assert(seq![digit_char(9)] =~= "9"@);
    }
    match d {
        0 => "0",
        1 => "1",
        2 => "2",
        3 => "3",
        4 => "4",
        5 => "5",
        6 => "6",
        7 => "7",
        8 => "8",
        _ => "9",
    }
}

/// The decimal rendering of an unsigned magnitude.
fn u64_dec(n: u64) -> (s: String)
    ensures
        s@ == dec_nat(n as nat),
    decreases n,
{
    if n < 10 {
        String::from_str(digit_str(n))
    } else {
        let mut s = u64_dec(n / 10);
        s.append(digit_str(n % 10));
        s
    }
}

/// The decimal rendering of `v`.
pub fn i64_dec(v: i64) -> (s: String)
    ensures
        s@ == dec_i64(v),
{
    if v < 0 {
        let m: u64 = (-(v as i128)) as u64;
        let mut s = String::from_str("-");
        proof {
            reveal_strlit("-");
            assert(s@ =~= seq!['-']);
        }
        let digits = u64_dec(m);
        s.append(digits.as_str());
        proof {
            assert(s@ =~= dec_i64(v));
        }
        s
    } else {
        u64_dec(v as u64)
    }
}

} // verus!
