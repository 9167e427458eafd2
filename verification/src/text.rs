use vstd::prelude::*;
use vstd::string::StringExecFns;

verus! {

/// The character of hexadecimal digit `d` (upper case).
pub open spec fn hex_char(d: int) -> char {
    if d < 10 { (48 + d) as char } else { (55 + d) as char }
}

/// Two upper-case hexadecimal digits of `b`.
pub open spec fn hex_pair(b: u8) -> Seq<char> {
    seq![hex_char((b / 16) as int), hex_char((b % 16) as int)]
}

/// The character of decimal digit `d`.
pub open spec fn dec_char(d: int) -> char {
    (48 + d) as char
}

/// The decimal digits of `n`, without leading zeros.
pub open spec fn dec_digits(n: nat) -> Seq<char>
    decreases n,
{
    if n < 10 {
        seq![dec_char(n as int)]
    } else {
        dec_digits(n / 10) + seq![dec_char((n % 10) as int)]
    }
}

/// Appends the hexadecimal digit `d`.
pub fn push_hex_digit(s: &mut String, d: u8)
    requires
        d < 16,
    ensures
        final(s)@ == old(s)@.push(hex_char(d as int)),
{
    let lit = match d {
        0 => "0", 1 => "1", 2 => "2", 3 => "3", 4 => "4", 5 => "5", 6 => "6", 7 => "7",
        8 => "8", 9 => "9", 10 => "A", 11 => "B", 12 => "C", 13 => "D", 14 => "E", _ => "F",
    };
    proof {
        reveal_strlit("0"); reveal_strlit("1"); reveal_strlit("2"); reveal_strlit("3");
        reveal_strlit("4"); reveal_strlit("5"); reveal_strlit("6"); reveal_strlit("7");
        reveal_strlit("8"); reveal_strlit("9"); reveal_strlit("A"); reveal_strlit("B");
        reveal_strlit("C"); reveal_strlit("D"); reveal_strlit("E"); reveal_strlit("F");
    }
    assert(lit@ =~= seq![hex_char(d as int)]);
    s.append(lit);
    assert(s@ =~= old(s)@.push(hex_char(d as int)));
}

/// Appends the two upper-case hexadecimal digits of `b`.
pub fn push_hex_pair(s: &mut String, b: u8)
    ensures
        final(s)@ == old(s)@ + hex_pair(b),
{
    push_hex_digit(s, b / 16);
    push_hex_digit(s, b % 16);
    assert(s@ =~= old(s)@ + hex_pair(b));
}

/// Appends the decimal digits of `n`.
pub fn push_decimal(s: &mut String, n: u32)
    ensures
        final(s)@ == old(s)@ + dec_digits(n as nat),
    decreases n,
{
    if n >= 10 {
        push_decimal(s, n / 10);
    }
    let d = (n % 10) as u8;
    push_hex_digit(s, d);
    assert(hex_char(d as int) == dec_char(d as int));
    assert(s@ =~= old(s)@ + dec_digits(n as nat));
}

/// Appends the decimal digits of `n`.
pub fn push_decimal_u64(s: &mut String, n: u64)
    ensures
        final(s)@ == old(s)@ + dec_digits(n as nat),
    decreases n,
{
    if n >= 10 {
        push_decimal_u64(s, n / 10);
    }
    let d = (n % 10) as u8;
    push_hex_digit(s, d);
    assert(hex_char(d as int) == dec_char(d as int));
    assert(s@ =~= old(s)@ + dec_digits(n as nat));
}


} // verus!
