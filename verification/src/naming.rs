//! Backend labels for validators.
//!
//! Every externally visible name embeds the protocol's short tag, so that
//! networks of different protocols can share one backend namespace.

use vstd::prelude::*;
use vstd::string::StringExecFns;
use crate::protocol::Network;
use crate::protocol::external_short_spec;

verus! {

/// The character of one decimal digit.
pub open spec fn digit_char(d: nat) -> char {
    if d == 0 {
        '0'
    } else if d == 1 {
        '1'
    } else if d == 2 {
        '2'
    } else if d == 3 {
        '3'
    } else if d == 4 {
        '4'
    } else if d == 5 {
        '5'
    } else if d == 6 {
        '6'
    } else if d == 7 {
        '7'
    } else if d == 8 {
        '8'
    } else {
        '9'
    }
}

/// The decimal digits of `n`, most significant first, with no leading zero
/// except for `n == 0` itself.
pub open spec fn decimal_spec(n: nat) -> Seq<char>
    decreases n,
{
    if n < 10 {
        seq![digit_char(n)]
    } else {
        decimal_spec(n / 10) + seq![digit_char(n % 10)]
    }
}

/// The backend label of validator `i` in a network speaking protocol `p`:
/// the protocol's short tag, `-validator-`, and the index in decimal.
pub open spec fn name_spec(p: Network, i: nat) -> Seq<char> {
    external_short_spec(p) + "-validator-"@ + decimal_spec(i)
}

/// Appends the character of the single decimal digit `d` to `s`.
fn push_digit(s: &mut String, d: usize)
    requires
        d < 10,
    ensures
        final(s)@ == old(s)@ + seq![digit_char(d as nat)],
{
    proof {
        reveal_strlit("0");
        reveal_strlit("1");
        reveal_strlit("2");
        reveal_strlit("3");
        reveal_strlit("4");
        reveal_strlit("5");
        reveal_strlit("6");
        reveal_strlit("7");
        reveal_strlit("8");
        reveal_strlit("9");
    }
    match d {
        0 => s.append("0"),
        1 => s.append("1"),
        2 => s.append("2"),
        3 => s.append("3"),
        4 => s.append("4"),
        5 => s.append("5"),
        6 => s.append("6"),
        7 => s.append("7"),
        8 => s.append("8"),
        _ => s.append("9"),
    }
    assert(final(s)@ =~= old(s)@ + seq![digit_char(d as nat)]);
}

/// Appends the decimal digits of `n` to `s`, most significant first.
pub fn push_decimal(s: &mut String, n: usize)
    ensures
        final(s)@ == old(s)@ + decimal_spec(n as nat),
    decreases n,
{
    if n >= 10 {
        push_decimal(s, n / 10);
        push_digit(s, n % 10);
        assert(final(s)@ =~= old(s)@ + decimal_spec(n as nat));
    } else {
        push_digit(s, n);
    }
}

/// Builds the backend label of validator `i` under protocol `p`.
pub fn validator_label(p: Network, i: usize) -> (s: String)
    ensures
        s@ == name_spec(p, i as nat),
{
    let mut s = String::new();
    s.append(p.external_short());
    s.append("-validator-");
    push_decimal(&mut s, i);
    proof {
        assert(s@ =~= name_spec(p, i as nat));
    }
    s
}

} // verus!
