//! Hexadecimal literals as assembler text.

use vstd::prelude::*;

verus! {

/// The lowercase hexadecimal digit for a value below sixteen.
pub open spec fn hex_digit(d: int) -> char {
    if d == 0 {
        '0'
    } else if d == 1 {
        '1'
    } else if d == 2 {
        '2'
    } else if d == 3 {
        '3'
    } else if d == 4 {
        '4'
    } else if d == 5 {
        '5'
    } else if d == 6 {
        '6'
    } else if d == 7 {
        '7'
    } else if d == 8 {
        '8'
    } else if d == 9 {
        '9'
    } else if d == 10 {
        'a'
    } else if d == 11 {
        'b'
    } else if d == 12 {
        'c'
    } else if d == 13 {
        'd'
    } else if d == 14 {
        'e'
    } else {
        'f'
    }
}

/// The hexadecimal digits of a number, most significant first, without
/// leading zeros; zero is the single digit `0`.
pub open spec fn hex_digits(n: nat) -> Seq<char>
    decreases n,
{
    if n < 16 {
        seq![hex_digit(n as int)]
    } else {
        hex_digits(n / 16).push(hex_digit((n % 16) as int))
    }
}

/// A hexadecimal literal: the prefix `0x` and the digits.
pub open spec fn hex_literal(n: nat) -> Seq<char> {
    "0x"@ + hex_digits(n)
}

/// A signed hexadecimal literal: a negative number is a minus sign and the
/// literal of its absolute value.
pub open spec fn signed_hex_literal(v: int) -> Seq<char> {
    if v < 0 {
        "-"@ + hex_literal((-v) as nat)
    } else {
        hex_literal(v as nat)
    }
}

/// The absolute value of a number.
pub open spec fn magnitude(v: int) -> nat {
    if v < 0 {
        (-v) as nat
    } else {
        v as nat
    }
}

/// The value of a hexadecimal digit; other characters count as zero.
pub open spec fn hex_digit_value(c: char) -> nat {
    if c == '1' {
        1
    } else if c == '2' {
        2
    } else if c == '3' {
        3
    } else if c == '4' {
        4
    } else if c == '5' {
        5
    } else if c == '6' {
        6
    } else if c == '7' {
        7
    } else if c == '8' {
        8
    } else if c == '9' {
        9
    } else if c == 'a' {
        10
    } else if c == 'b' {
        11
    } else if c == 'c' {
        12
    } else if c == 'd' {
        13
    } else if c == 'e' {
        14
    } else if c == 'f' {
        15
    } else {
        0
    }
}

/// The number that a sequence of hexadecimal digits spells, most significant
/// digit first.
pub open spec fn hex_value(digits: Seq<char>) -> nat
    decreases digits.len(),
{
    if digits.len() == 0 {
        0
    } else {
        16 * hex_value(digits.drop_last()) + hex_digit_value(digits.last())
    }
}

/// The digits of a number other than zero do not begin with `0`.
pub proof fn lemma_no_leading_zero(n: nat)
    requires
        n > 0,
    ensures
        hex_digits(n).len() >= 1,
        hex_digits(n)[0] != '0',
    decreases n,
{
    if n >= 16 {
        lemma_no_leading_zero(n / 16);
    }
}

/// The digits of a number spell it: read as a number in base sixteen, most
/// significant digit first, they give the number back.
pub proof fn lemma_hex_digits_spell(n: nat)
    ensures
        hex_value(hex_digits(n)) == n,
    decreases n,
{
    reveal_with_fuel(hex_value, 2);
    let digits = hex_digits(n);
    assert(hex_digit_value(hex_digit((n % 16) as int)) == n % 16);
    assert(digits.last() == hex_digit((n % 16) as int));
    if n >= 16 {
        lemma_hex_digits_spell(n / 16);
        assert(digits.drop_last() =~= hex_digits(n / 16));
    } else {
        assert(digits.drop_last() =~= Seq::<char>::empty());
    }
}

/// The one-character string of a hexadecimal digit.
pub fn hex_digit_str(d: u8) -> (s: &'static str)
    requires
        d < 16,
    ensures
        s@ == seq![hex_digit(d as int)],
{
    proof {
        reveal_strlit("0");
        reveal_strlit("1");
        reveal_strlit("2");
        reveal_strlit("3");
        reveal_strlit("4");
        reveal_strlit("5");
        reveal_strlit("6");
        reveal_strlit("7");
        reveal_strlit("8");
        reveal_strlit("9");
        reveal_strlit("a");
        reveal_strlit("b");
        reveal_strlit("c");
        reveal_strlit("d");
        reveal_strlit("e");
        reveal_strlit("f");
    }
    let s = match d {
        0 => "0",
        1 => "1",
        2 => "2",
        3 => "3",
        4 => "4",
        5 => "5",
        6 => "6",
        7 => "7",
        8 => "8",
        9 => "9",
        10 => "a",
        11 => "b",
        12 => "c",
        13 => "d",
        14 => "e",
        _ => "f",
    };
    assert(s@ =~= seq![hex_digit(d as int)]);
    s
}

/// Appends the hexadecimal digits of `n` to `out`.
pub fn push_hex_digits(out: &mut String, n: u64)
    ensures
        final(out)@ == old(out)@ + hex_digits(n as nat),
    decreases n,
{
    if n >= 16 {
        push_hex_digits(out, n / 16);
    }
    out.append(hex_digit_str((n % 16) as u8));
    assert(out@ =~= old(out)@ + hex_digits(n as nat));
}

/// Appends the hexadecimal literal of `n` to `out`.
pub fn push_hex_literal(out: &mut String, n: u64)
    ensures
        final(out)@ == old(out)@ + hex_literal(n as nat),
{
    out.append("0x");
    push_hex_digits(out, n);
    assert(out@ =~= old(out)@ + hex_literal(n as nat));
}

/// The absolute value of a 16-bit number, which always fits in 16 bits
/// unsigned.
pub fn magnitude_of(v: i16) -> (m: u16)
    ensures
        m == magnitude(v as int),
{
    if v < 0 {
        (-(v as i32)) as u16
    } else {
        v as u16
    }
}

/// Appends the signed hexadecimal literal of `v` to `out`.
pub fn push_signed_hex_literal(out: &mut String, v: i16)
    ensures
        final(out)@ == old(out)@ + signed_hex_literal(v as int),
{
    if v < 0 {
        out.append("-");
    }
    push_hex_literal(out, magnitude_of(v) as u64);
    assert(out@ =~= old(out)@ + signed_hex_literal(v as int));
}

} // verus!
