use vstd::prelude::*;
use vstd::string::*;
use crate::money::Money;

verus! {

/// The character of decimal digit `d`.
pub open spec fn digit_char(d: nat) -> char {
    if d == 0 {
        '0'
    } else if d == 1 {
        '1'
    } else if d == 2 {
        '2'
    } else if d == 3 {
        '3'
    } else if d == 4 {
        '4'
    } else if d == 5 {
        '5'
    } else if d == 6 {
        '6'
    } else if d == 7 {
        '7'
    } else if d == 8 {
        '8'
    } else {
        '9'
    }
}

/// The decimal digits of `n`, most significant first, without leading zeros.
pub open spec fn decimal_digits(n: nat) -> Seq<char>
    decreases n,
{
    if n < 10 {
        seq![digit_char(n)]
    } else {
        decimal_digits(n / 10).push(digit_char(n % 10))
    }
}

/// `v` written in decimal, with a leading minus sign when negative.
pub open spec fn decimal(v: int) -> Seq<char> {
    if v < 0 {
        seq!['-'] + decimal_digits((-v) as nat)
    } else {
        decimal_digits(v as nat)
    }
}

/// The text that the money counter shows for balance `v`.
pub open spec fn money_label(v: int) -> Seq<char> {
    seq!['M', 'o', 'n', 'e', 'y', ':', ' ', '£'] + decimal(v)
}

fn digit_str(d: u64) -> (r: &'static str)
    requires
        d < 10,
    ensures
        r@ == seq![digit_char(d as nat)],
{
    match d {
        0 => {
            proof { reveal_strlit("0"); }
            "0"
        },
        1 => {
            proof { reveal_strlit("1"); }
            "1"
        },
        2 => {
            proof { reveal_strlit("2"); }
            "2"
        },
        3 => {
            proof { reveal_strlit("3"); }
            "3"
        },
        4 => {
            proof { reveal_strlit("4"); }
            "4"
        },
        5 => {
            proof { reveal_strlit("5"); }
            "5"
        },
        6 => {
            proof { reveal_strlit("6"); }
            "6"
        },
        7 => {
            proof { reveal_strlit("7"); }
            "7"
        },
        8 => {
            proof { reveal_strlit("8"); }
            "8"
        },
        _ => {
            proof { reveal_strlit("9"); }
            "9"
        },
    }
}

fn push_digits(s: &mut String, n: u64)
    ensures
        final(s)@ == old(s)@ + decimal_digits(n as nat),
    decreases n,
{
    if n >= 10 {
        push_digits(s, n / 10);
    }
    s.append(digit_str(n % 10));
    proof {
        assert(s@ =~= old(s)@ + decimal_digits(n as nat));
    }
}

/// The money counter's text for the current balance, such as
/// `Money: £100`.
pub fn money_text(money: &Money) -> (r: String)
    ensures
        r@ == money_label(money.0 as int),
{
    let mut s = String::from_str("Money: £");
    proof {
        reveal_strlit("Money: £");
        assert(s@ =~= seq!['M', 'o', 'n', 'e', 'y', ':', ' ', '£']);
    }
    let v = money.0;
    if v < 0 {
        s.append("-");
        proof { reveal_strlit("-"); }
        push_digits(&mut s, (0i128 - v as i128) as u64);
    } else {
        push_digits(&mut s, v as u64);
    }
    proof {
        assert(s@ =~= money_label(v as int));
    }
    s
}

} // verus!
