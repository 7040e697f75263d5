//! Rendering of numbers as text, used in error messages.

use vstd::prelude::*;
use vstd::string::StringExecFns;

verus! {

/// The decimal digit `d` as a character.
pub open spec fn decimal_digit(d: int) -> char {
    if d == 0 { '0' }
    else if d == 1 { '1' }
    else if d == 2 { '2' }
    else if d == 3 { '3' }
    else if d == 4 { '4' }
    else if d == 5 { '5' }
    else if d == 6 { '6' }
    else if d == 7 { '7' }
    else if d == 8 { '8' }
    else { '9' }
}

/// The hexadecimal digit `d` (upper case) as a character.
pub open spec fn hex_digit(d: int) -> char {
    if d < 10 { decimal_digit(d) }
    else if d == 10 { 'A' }
    else if d == 11 { 'B' }
    else if d == 12 { 'C' }
    else if d == 13 { 'D' }
    else if d == 14 { 'E' }
    else { 'F' }
}

/// The decimal representation of `n`, without leading zeros.
pub open spec fn decimal(n: nat) -> Seq<char>
    decreases n,
{
    if n < 10 {
        seq![decimal_digit(n as int)]
    } else {
        decimal(n / 10).push(decimal_digit((n % 10) as int))
    }
}

/// The four upper-case hexadecimal digits of `v`, zero-padded.
pub open spec fn hex4(v: u16) -> Seq<char> {
    seq![
        hex_digit((v / 4096) as int),
        hex_digit(((v / 256) % 16) as int),
        hex_digit(((v / 16) % 16) as int),
        hex_digit((v % 16) as int),
    ]
}

fn digit_str(d: u64) -> (s: &'static str)
    requires
        d < 16,
    ensures
        s@ == seq![hex_digit(d as int)],
{
    proof {
        reveal_strlit("0");
        reveal_strlit("1");
        reveal_strlit("2");
        reveal_strlit("3");
        reveal_strlit("4");
        reveal_strlit("5");
        reveal_strlit("6");
        reveal_strlit("7");
        reveal_strlit("8");
        reveal_strlit("9");
        reveal_strlit("A");
        reveal_strlit("B");
        reveal_strlit("C");
        reveal_strlit("D");
        reveal_strlit("E");
        reveal_strlit("F");
    }
    if d == 0 { "0" }
    else if d == 1 { "1" }
    else if d == 2 { "2" }
    else if d == 3 { "3" }
    else if d == 4 { "4" }
    else if d == 5 { "5" }
    else if d == 6 { "6" }
    else if d == 7 { "7" }
    else if d == 8 { "8" }
    else if d == 9 { "9" }
    else if d == 10 { "A" }
    else if d == 11 { "B" }
    else if d == 12 { "C" }
    else if d == 13 { "D" }
    else if d == 14 { "E" }
    else { "F" }
}

/// Appends the decimal representation of `n` to `s`.
pub fn push_decimal(s: &mut String, n: u64)
    ensures
        final(s)@ == old(s)@ + decimal(n as nat),
    decreases n,
{
    if n < 10 {
        s.append(digit_str(n));
    } else {
        push_decimal(s, n / 10);
        s.append(digit_str(n % 10));
    }
}

/// Appends the four upper-case hexadecimal digits of `v` to `s`.
pub fn push_hex4(s: &mut String, v: u16)
    ensures
        final(s)@ == old(s)@ + hex4(v),
{
    s.append(digit_str((v / 4096) as u64));
    s.append(digit_str(((v / 256) % 16) as u64));
    s.append(digit_str(((v / 16) % 16) as u64));
    s.append(digit_str((v % 16) as u64));
}

} // verus!
