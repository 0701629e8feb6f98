//! Numbers and letters written into message text.

use crate::langgen::output_helper::string_push;
use vstd::prelude::*;

verus! {

/// The decimal digit for `d`, which is below ten.
pub open spec fn digit_char(d: nat) -> char {
    (48 + d) as char
}

/// The decimal digits of `n`, without leading zeros.
pub open spec fn digits(n: nat) -> Seq<char>
    decreases n,
{
    if n < 10 {
        seq![digit_char(n)]
    } else {
        digits(n / 10).push(digit_char(n % 10))
    }
}

/// `n` written in decimal, with a minus sign when negative.
pub open spec fn decimal(n: int) -> Seq<char> {
    if n < 0 {
        seq!['-'] + digits((-n) as nat)
    } else {
        digits(n as nat)
    }
}

/// `", for N hp"`, as a hit is reported.
pub open spec fn hit_text(damage: int) -> Seq<char> {
    seq![',', ' ', 'f', 'o', 'r', ' '] + decimal(damage) + seq![' ', 'h', 'p']
}

/// `"N hp"`, as a loss of health is reported.
pub open spec fn hp_text(amount: int) -> Seq<char> {
    decimal(amount) + seq![' ', 'h', 'p']
}

/// `" (c)"`, the letter a backpack slot is chosen with.
pub open spec fn slot_text(letter: char) -> Seq<char> {
    seq![' ', '(', letter, ')']
}

/// Writes an `i32` with std's `format!`; claimed: the number is written in
/// decimal, with a minus sign when negative, as `Display` for `i32`
/// documents.
#[verifier::external_body]
fn decimal_string(n: i32) -> (s: String)
    ensures
        s@ == decimal(n as int),
{
    format!("{}", n)
}

/// `", for {damage} hp"`.
pub(crate) fn format_hit(damage: i32) -> (s: String)
    ensures
        s@ == hit_text(damage as int),
{
    let mut s = String::new();
    s.append(", for ");
    let number = decimal_string(damage);
    s.append(number.as_str());
    s.append(" hp");
    proof {
        reveal_strlit(", for ");
        reveal_strlit(" hp");
        assert(s@ =~= hit_text(damage as int));
    }
    s
}

/// `"{amount} hp"`.
pub(crate) fn format_hp(amount: i32) -> (s: String)
    ensures
        s@ == hp_text(amount as int),
{
    let mut s = decimal_string(amount);
    s.append(" hp");
    proof {
        reveal_strlit(" hp");
        assert(s@ =~= hp_text(amount as int));
    }
    s
}

/// `" ({letter})"`.
pub(crate) fn format_slot(letter: char) -> (s: String)
    ensures
        s@ == slot_text(letter),
{
    let mut s = String::new();
    s.append(" (");
    string_push(&mut s, letter);
    s.append(")");
    proof {
        reveal_strlit(" (");
        reveal_strlit(")");
        assert(s@ =~= slot_text(letter));
    }
    s
}

} // verus!
