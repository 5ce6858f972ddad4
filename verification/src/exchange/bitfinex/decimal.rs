//! Numbers as the exchange reads them: integers in decimal, and fixed
//! point quantities as decimal fractions.

use vstd::prelude::*;

use crate::strategy::lending::{Amount, Rate};

verus! {

/// The character that stands for a value below ten.
pub open spec fn decimal_digit(digit: int) -> char
    recommends
        0 <= digit < 10,
{
    "0123456789"@[digit]
}

/// A natural number in decimal, without leading zeros.
pub open spec fn decimal(n: nat) -> Seq<char>
    decreases n,
{
    if n < 10 {
        seq![decimal_digit(n as int)]
    } else {
        decimal(n / 10).push(decimal_digit((n % 10) as int))
    }
}

/// An integer in decimal, with a minus sign where it is negative.
pub open spec fn signed_decimal(n: int) -> Seq<char> {
    if n < 0 {
        seq!['-'] + decimal((-n) as nat)
    } else {
        decimal(n as nat)
    }
}

/// Ten to the power of `places`.
pub open spec fn pow10(places: nat) -> nat
    decreases places,
{
    if places == 0 {
        1
    } else {
        10 * pow10((places - 1) as nat)
    }
}

/// The last `places` decimal digits of `n`, leading zeros included.
pub open spec fn padded(n: nat, places: nat) -> Seq<char>
    decreases places,
{
    if places == 0 {
        Seq::empty()
    } else {
        padded(n / 10, (places - 1) as nat).push(decimal_digit((n % 10) as int))
    }
}

/// The last `places` decimal digits of `n` without the zeros at their end.
pub open spec fn fraction(n: nat, places: nat) -> Seq<char>
    decreases places,
{
    if places == 0 {
        Seq::empty()
    } else if n % 10 == 0 {
        fraction(n / 10, (places - 1) as nat)
    } else {
        padded(n, places)
    }
}

/// The number `value / 10^places` in decimal: its whole part, and behind
/// a point its fraction, where it has one.
pub open spec fn fixed_decimal(value: nat, places: nat) -> Seq<char> {
    let whole = decimal(value / pow10(places));
    let rest = fraction(value % pow10(places), places);
    if rest.len() == 0 {
        whole
    } else {
        whole + seq!['.'] + rest
    }
}

fn digit(d: u128) -> (text: &'static str)
    requires
        d < 10,
    ensures
        text@ == seq![decimal_digit(d as int)],
{
    proof {
        reveal_strlit("0123456789");
        reveal_strlit("0");
        reveal_strlit("1");
        reveal_strlit("2");
        reveal_strlit("3");
        reveal_strlit("4");
        reveal_strlit("5");
        reveal_strlit("6");
        reveal_strlit("7");
        reveal_strlit("8");
        reveal_strlit("9");
    }
    let text = if d == 0 {
        "0"
    } else if d == 1 {
        "1"
    } else if d == 2 {
        "2"
    } else if d == 3 {
        "3"
    } else if d == 4 {
        "4"
    } else if d == 5 {
        "5"
    } else if d == 6 {
        "6"
    } else if d == 7 {
        "7"
    } else if d == 8 {
        "8"
    } else {
        "9"
    };
    assert(text@ =~= seq![decimal_digit(d as int)]);
    text
}

/// Appends a natural number in decimal.
pub fn push_decimal(out: &mut String, n: u128)
    ensures
        final(out)@ == old(out)@ + decimal(n as nat),
    decreases n,
{
    if n >= 10 {
        push_decimal(out, n / 10);
    }
    out.append(digit(n % 10));
    proof {
        let head = decimal((n / 10) as nat);
        let last = decimal_digit((n % 10) as int);
        if n >= 10 {
            assert(old(out)@ + head + seq![last] =~= old(out)@ + head.push(last));
        }
    }
}

/// Writes a natural number in decimal.
pub fn to_decimal(n: u128) -> (text: String)
    ensures
        text@ == decimal(n as nat),
{
    let mut text = String::new();
    push_decimal(&mut text, n);
    assert(Seq::<char>::empty() + decimal(n as nat) =~= decimal(n as nat));
    text
}

proof fn lemma_pow10_positive(places: nat)
    ensures
        pow10(places) > 0,
    decreases places,
{
    if places > 0 {
        lemma_pow10_positive((places - 1) as nat);
    }
}

proof fn lemma_padded_len(n: nat, places: nat)
    ensures
        padded(n, places).len() == places,
    decreases places,
{
    if places > 0 {
        lemma_padded_len(n / 10, (places - 1) as nat);
    }
}

/// Only zero has no fraction digits.
proof fn lemma_fraction_of_zero(n: nat, places: nat)
    requires
        n < pow10(places),
    ensures
        fraction(n, places).len() == 0 <==> n == 0,
    decreases places,
{
    if places > 0 {
        if n % 10 == 0 {
            lemma_fraction_of_zero(n / 10, (places - 1) as nat);
        } else {
            lemma_padded_len(n, places);
        }
    }
}

fn push_padded(out: &mut String, n: u64, places: u32)
    ensures
        final(out)@ == old(out)@ + padded(n as nat, places as nat),
    decreases places,
{
    if places > 0 {
        push_padded(out, n / 10, places - 1);
        out.append(digit((n % 10) as u128));
        proof {
            let head = padded((n / 10) as nat, (places - 1) as nat);
            let last = decimal_digit((n % 10) as int);
            assert(old(out)@ + head + seq![last] =~= old(out)@ + head.push(last));
        }
    } else {
        assert(old(out)@ + Seq::<char>::empty() =~= old(out)@);
    }
}

fn push_fraction(out: &mut String, n: u64, places: u32)
    ensures
        final(out)@ == old(out)@ + fraction(n as nat, places as nat),
    decreases places,
{
    if places == 0 {
        assert(old(out)@ + Seq::<char>::empty() =~= old(out)@);
    } else if n % 10 == 0 {
        push_fraction(out, n / 10, places - 1);
    } else {
        push_padded(out, n, places);
    }
}

/// Writes `value / scale` in decimal, where `scale` is ten to the power of
/// `places`.
fn fixed_text(value: u64, scale: u64, places: u32) -> (text: String)
    requires
        scale == pow10(places as nat),
    ensures
        text@ == fixed_decimal(value as nat, places as nat),
{
    proof {
        lemma_pow10_positive(places as nat);
    }
    let mut text = to_decimal((value / scale) as u128);
    let rest = value % scale;
    proof {
        lemma_fraction_of_zero(rest as nat, places as nat);
    }
    if rest != 0 {
        text.append(".");
        proof {
            reveal_strlit(".");
            assert("."@ =~= seq!['.']);
        }
        push_fraction(&mut text, rest, places);
    }
    text
}

/// Writes an amount in units of the currency.
pub fn amount_text(amount: Amount) -> (text: String)
    ensures
        text@ == fixed_decimal(amount as nat, 2),
{
    assert(pow10(2) == 100) by {
        reveal_with_fuel(pow10, 3);
    }
    fixed_text(amount, 100, 2)
}

/// Writes a rate as a fraction of one.
pub fn rate_text(rate: Rate) -> (text: String)
    ensures
        text@ == fixed_decimal(rate as nat, 9),
{
    assert(pow10(9) == 1_000_000_000) by {
        reveal_with_fuel(pow10, 10);
    }
    fixed_text(rate, 1_000_000_000, 9)
}

} // verus!
