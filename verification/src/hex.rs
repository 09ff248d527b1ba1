//! Hexadecimal digits: the value of a digit character, and the two upper-case
//! digits that spell a byte.

use vstd::prelude::*;
use vstd::string::*;

verus! {

/// The value of a hexadecimal digit, upper or lower case; `None` for every
/// other character.
pub open spec fn digit_value(c: char) -> Option<u8> {
    if '0' <= c <= '9' {
        Some((c as int - '0' as int) as u8)
    } else if 'A' <= c <= 'F' {
        Some((c as int - 'A' as int + 10) as u8)
    } else if 'a' <= c <= 'f' {
        Some((c as int - 'a' as int + 10) as u8)
    } else {
        None
    }
}

/// The upper-case digit that stands for a value below sixteen.
pub open spec fn digit_char(v: u8) -> char
    recommends
        v < 16,
{
    if v < 10 {
        ('0' as int + v) as char
    } else {
        ('A' as int + v - 10) as char
    }
}

/// The byte that two digit characters spell, high digit first; `None` where
/// either is no hexadecimal digit.
pub open spec fn byte_value(high: char, low: char) -> Option<u8> {
    match (digit_value(high), digit_value(low)) {
        (Some(h), Some(l)) => Some((16 * h + l) as u8),
        _ => None,
    }
}

/// The two upper-case digits that spell a byte, high digit first.
pub open spec fn byte_digits(v: u8) -> Seq<char> {
    seq![digit_char(v / 16), digit_char(v % 16)]
}

/// Reads one hexadecimal digit.
pub fn parse_digit(c: char) -> (r: Option<u8>)
    ensures
        r == digit_value(c),
{
    let n: u32 = c as u32;
    if '0' as u32 <= n && n <= '9' as u32 {
        Some((n - '0' as u32) as u8)
    } else if 'A' as u32 <= n && n <= 'F' as u32 {
        Some((n - 'A' as u32 + 10) as u8)
    } else if 'a' as u32 <= n && n <= 'f' as u32 {
        Some((n - 'a' as u32 + 10) as u8)
    } else {
        None
    }
}

/// Reads a byte from two digit characters, high digit first.
pub fn parse_byte(high: char, low: char) -> (r: Option<u8>)
    ensures
        r == byte_value(high, low),
{
    match parse_digit(high) {
        Some(h) => match parse_digit(low) {
            Some(l) => Some(16 * h + l),
            None => None,
        },
        None => None,
    }
}

/// The text of one upper-case digit.
pub fn digit_text(v: u8) -> (s: &'static str)
    requires
        v < 16,
    ensures
        s@ == seq![digit_char(v)],
{
    proof {
        reveal_strlit("0");
        reveal_strlit("1");
        reveal_strlit("2");
        reveal_strlit("3");
        reveal_strlit("4");
        reveal_strlit("5");
        reveal_strlit("6");
        reveal_strlit("7");
        reveal_strlit("8");
        reveal_strlit("9");
        reveal_strlit("A");
        reveal_strlit("B");
        reveal_strlit("C");
        reveal_strlit("D");
        reveal_strlit("E");
        reveal_strlit("F");
    }
    let s = match v {
        0 => "0",
        1 => "1",
        2 => "2",
        3 => "3",
        4 => "4",
        5 => "5",
        6 => "6",
        7 => "7",
        8 => "8",
        9 => "9",
        10 => "A",
        11 => "B",
        12 => "C",
        13 => "D",
        14 => "E",
        _ => "F",
    };
    assert(s@ =~= seq![digit_char(v)]);
    s
}

/// Every digit character reads back as the value it was written for.
pub proof fn lemma_digit_round_trip(v: u8)
    requires
        v < 16,
    ensures
        digit_value(digit_char(v)) == Some(v),
{
}

/// A byte's two digits read back as that byte.
pub proof fn lemma_byte_round_trip(v: u8)
    ensures
        byte_digits(v).len() == 2,
        byte_value(byte_digits(v)[0], byte_digits(v)[1]) == Some(v),
{
    lemma_digit_round_trip(v / 16);
    lemma_digit_round_trip(v % 16);
}

/// A lower-case digit and its upper-case form have the same value.
pub proof fn lemma_digit_case(c: char)
    requires
        'a' <= c <= 'f',
    ensures
        digit_value(c) == digit_value((c as int - 'a' as int + 'A' as int) as char),
{
}

} // verus!
