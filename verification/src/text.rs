//! Numbers as text.

use vstd::prelude::*;
use vstd::string::StringExecFns;

use crate::nas::ie::{all_digits, decimal_digits, digits_round_trip, to_decimal};

verus! {

pub open spec fn digit_char(d: u8) -> char {
    (d + 48) as char
}

/// A number in decimal.
pub open spec fn decimal_text(n: nat) -> Seq<char> {
    decimal_digits(n).map_values(|d: u8| digit_char(d))
}

/// Different numbers have different texts.
pub proof fn decimal_texts_are_separate(a: nat, b: nat)
    requires
        decimal_text(a) == decimal_text(b),
    ensures
        a == b,
{
    let x = decimal_digits(a);
    let y = decimal_digits(b);
    digits_round_trip(a);
    digits_round_trip(b);
    assert(x.len() == decimal_text(a).len() && y.len() == decimal_text(b).len());
    assert forall|i: int| 0 <= i < x.len() implies x[i] == y[i] by {
        assert(decimal_text(a)[i] == digit_char(x[i]) && decimal_text(b)[i] == digit_char(y[i]));
        assert(x[i] <= 9 && y[i] <= 9);
    }
    assert(x =~= y);
}

fn digit_text(d: u8) -> (text: &'static str)
    requires
        d <= 9,
    ensures
        text@ == seq![digit_char(d)],
{
    proof {
        reveal_strlit("0");
        reveal_strlit("1");
        reveal_strlit("2");
        reveal_strlit("3");
        reveal_strlit("4");
        reveal_strlit("5");
        reveal_strlit("6");
        reveal_strlit("7");
        reveal_strlit("8");
        reveal_strlit("9");
    }
    let text = match d {
        0 => "0",
        1 => "1",
        2 => "2",
        3 => "3",
        4 => "4",
        5 => "5",
        6 => "6",
        7 => "7",
        8 => "8",
        _ => "9",
    };
    assert(text@ =~= seq![digit_char(d)]);
    text
}

/// Adds a number in decimal to a text.
pub fn append_decimal(text: &mut String, n: u64)
    ensures
        final(text)@ == old(text)@ + decimal_text(n as nat),
{
    let ghost start = text@;
    let digits = to_decimal(n);
    proof {
        digits_round_trip(n as nat);
    }
    let mut i: usize = 0;
    assert(start =~= start + digits@.take(0).map_values(|d: u8| digit_char(d)));
    while i < digits.len()
        invariant
            i <= digits@.len(),
            all_digits(digits@),
            text@ == start + digits@.take(i as int).map_values(|d: u8| digit_char(d)),
        decreases digits@.len() - i,
    {
        assert(digits@[i as int] <= 9);
        text.append(digit_text(digits[i]));
        i += 1;
        assert(text@ =~= start + digits@.take(i as int).map_values(|d: u8| digit_char(d)));
    }
    assert(digits@.take(i as int) =~= digits@);
}

} // verus!
