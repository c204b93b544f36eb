//! Numbers in text.

use vstd::prelude::*;

verus! {

/// The character of a digit.
pub open spec fn digit(d: int) -> char {
    ('0' as int + d) as char
}

/// A number in decimal notation.
pub open spec fn decimal(n: nat) -> Seq<char>
    decreases n,
{
    if n < 10 {
        seq![digit(n as int)]
    } else {
        decimal(n / 10).push(digit((n % 10) as int))
    }
}

/// A number in decimal notation, with a sign where it is negative.
pub open spec fn signed_decimal(n: int) -> Seq<char> {
    if n < 0 {
        "-"@ + decimal((-n) as nat)
    } else {
        decimal(n as nat)
    }
}

fn digit_str(d: u64) -> (r: &'static str)
    requires
        d < 10,
    ensures
        r@ == seq![digit(d as int)],
{
    proof {
        reveal_strlit("0");
        reveal_strlit("1");
        reveal_strlit("2");
        reveal_strlit("3");
        reveal_strlit("4");
        reveal_strlit("5");
        reveal_strlit("6");
        reveal_strlit("7");
        reveal_strlit("8");
        reveal_strlit("9");
    }
    let r = match d {
        0 => "0",
        1 => "1",
        2 => "2",
        3 => "3",
        4 => "4",
        5 => "5",
        6 => "6",
        7 => "7",
        8 => "8",
        _ => "9",
    };
    assert(r@ =~= seq![digit(d as int)]);
    r
}

/// Appends a number in decimal notation.
pub fn push_decimal(s: &mut String, n: u64)
    ensures
        final(s)@ == old(s)@ + decimal(n as nat),
    decreases n,
{
    if n < 10 {
        s.append(digit_str(n));
    } else {
        push_decimal(s, n / 10);
        s.append(digit_str(n % 10));
        assert(s@ =~= old(s)@ + decimal(n as nat));
    }
}

/// Appends a number in decimal notation, with a sign where it is negative.
pub fn push_signed(s: &mut String, n: i64)
    requires
        n > i64::MIN,
    ensures
        final(s)@ == old(s)@ + signed_decimal(n as int),
{
    if n < 0 {
        s.append("-");
        push_decimal(s, (-n) as u64);
        assert(s@ =~= old(s)@ + signed_decimal(n as int));
    } else {
        push_decimal(s, n as u64);
    }
}

} // verus!
