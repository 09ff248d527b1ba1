//! Colours quantized to eight bits a channel, and their hexadecimal text.
//!
//! The text form is an optional prefix (`#` or `0x`), then two hexadecimal
//! digits for each of red, green and blue, then optionally two for alpha.

use vstd::prelude::*;
use vstd::string::*;
use crate::hex::{
    byte_digits, byte_value, digit_char, digit_text, digit_value, lemma_byte_round_trip,
    parse_byte,
};

verus! {

/// A colour with eight bits for each of red, green, blue and alpha.
#[derive(Clone, Copy, Debug, PartialEq, Eq, Structural)]
pub struct Rgba8 {
    pub r: u8,
    pub g: u8,
    pub b: u8,
    pub a: u8,
}

/// Why a text is not a colour.
#[derive(Clone, Copy, Debug, PartialEq, Eq, Structural)]
pub enum HexError {
    /// The text ends before the two digits of a channel are complete.
    TooShort,
    /// A character where a digit is expected is no hexadecimal digit.
    InvalidDigit,
}

/// The number of characters that the optional prefix takes: one for `#`, two
/// for `0x`, none otherwise.
pub open spec fn prefix_len(s: Seq<char>) -> int {
    if s.len() >= 1 && s[0] == '#' {
        1
    } else if s.len() >= 2 && s[0] == '0' && s[1] == 'x' {
        2
    } else {
        0
    }
}

/// The channel spelled by the two characters at `at` and `at + 1`.
pub open spec fn channel_at(s: Seq<char>, at: int) -> Result<u8, HexError>
    recommends
        0 <= at,
{
    if s.len() < at + 2 {
        Err(HexError::TooShort)
    } else {
        match byte_value(s[at], s[at + 1]) {
            Some(v) => Ok(v),
            None => Err(HexError::InvalidDigit),
        }
    }
}

/// The colour that a text spells, or the first reason why it spells none.
///
/// Channels are read in the order red, green, blue. Where the text ends right
/// after blue, alpha is 255; otherwise alpha is read too. Characters after
/// alpha are not looked at.
pub open spec fn parse_hex(s: Seq<char>) -> Result<Rgba8, HexError> {
    let p = prefix_len(s);
    match channel_at(s, p) {
        Err(e) => Err(e),
        Ok(r) => match channel_at(s, p + 2) {
            Err(e) => Err(e),
            Ok(g) => match channel_at(s, p + 4) {
                Err(e) => Err(e),
                Ok(b) => if s.len() <= p + 6 {
                    Ok(Rgba8 { r, g, b, a: 255 })
                } else {
                    match channel_at(s, p + 6) {
                        Err(e) => Err(e),
                        Ok(a) => Ok(Rgba8 { r, g, b, a }),
                    }
                },
            },
        },
    }
}

/// The digits of a colour, without a prefix: red, green, blue, and alpha where
/// asked for.
pub open spec fn hex_digits(c: Rgba8, include_alpha: bool) -> Seq<char> {
    let rgb = byte_digits(c.r) + byte_digits(c.g) + byte_digits(c.b);
    if include_alpha {
        rgb + byte_digits(c.a)
    } else {
        rgb
    }
}

/// The text of a colour: `#`, then its digits.
pub open spec fn format_hex(c: Rgba8, include_alpha: bool) -> Seq<char> {
    seq!['#'] + hex_digits(c, include_alpha)
}

/// Appends the two digits of a byte to a text.
fn push_byte(text: &mut String, v: u8)
    ensures
        final(text)@ == old(text)@ + byte_digits(v),
{
    text.append(digit_text(v / 16));
    text.append(digit_text(v % 16));
    assert(text@ =~= old(text)@ + byte_digits(v));
}

/// Reads the channel at `at`, in a text of `len` characters.
fn read_channel(hex: &str, len: usize, at: usize) -> (r: Result<u8, HexError>)
    requires
        len == hex@.len(),
        at <= 8,
    ensures
        r == channel_at(hex@, at as int),
{
    if len < at + 2 {
        return Err(HexError::TooShort);
    }
    match parse_byte(hex.get_char(at), hex.get_char(at + 1)) {
        Some(v) => Ok(v),
        None => Err(HexError::InvalidDigit),
    }
}

impl Rgba8 {
    /// A colour from its four channels.
    pub fn new(r: u8, g: u8, b: u8, a: u8) -> (c: Rgba8)
        ensures
            c == (Rgba8 { r, g, b, a }),
    {
        Rgba8 { r, g, b, a }
    }

    /// Reads a colour from its hexadecimal text.
    ///
    /// The text may begin with `#` or `0x`. Six digits give an opaque colour,
    /// eight give alpha too; digits are taken in either case.
    pub fn from_hex(hex: &str) -> (r: Result<Rgba8, HexError>)
        ensures
            r == parse_hex(hex@),
    {
        let len = hex.unicode_len();
        let start: usize = if len >= 1 && hex.get_char(0) == '#' {
            1
        } else if len >= 2 && hex.get_char(0) == '0' && hex.get_char(1) == 'x' {
            2
        } else {
            0
        };
        let r = match read_channel(hex, len, start) {
            Ok(v) => v,
            Err(e) => return Err(e),
        };
        let g = match read_channel(hex, len, start + 2) {
            Ok(v) => v,
            Err(e) => return Err(e),
        };
        let b = match read_channel(hex, len, start + 4) {
            Ok(v) => v,
            Err(e) => return Err(e),
        };
        if len <= start + 6 {
            return Ok(Rgba8 { r, g, b, a: 255 });
        }
        match read_channel(hex, len, start + 6) {
            Ok(a) => Ok(Rgba8 { r, g, b, a }),
            Err(e) => Err(e),
        }
    }

    /// Writes the colour as `#RRGGBB`, or as `#RRGGBBAA` where alpha is asked
    /// for, in upper-case digits.
    pub fn as_hex(&self, include_alpha: bool) -> (text: String)
        ensures
            text@ == format_hex(*self, include_alpha),
    {
        let mut text = String::from_str("#");
        proof {
            reveal_strlit("#");
            assert(text@ =~= seq!['#']);
        }
        push_byte(&mut text, self.r);
        push_byte(&mut text, self.g);
        push_byte(&mut text, self.b);
        if include_alpha {
            push_byte(&mut text, self.a);
        }
        assert(text@ =~= format_hex(*self, include_alpha));
        text
    }
}

/// Whether a text is one of the three prefixes that a colour's digits may
/// follow: nothing, `#` or `0x`.
pub open spec fn is_prefix(p: Seq<char>) -> bool {
    p == Seq::<char>::empty() || p == seq!['#'] || p == seq!['0', 'x']
}

/// The colour that reading gives back after writing: the colour itself where
/// alpha was written, and the colour made opaque where it was not.
pub open spec fn as_read_back(c: Rgba8, include_alpha: bool) -> Rgba8 {
    if include_alpha {
        c
    } else {
        Rgba8 { r: c.r, g: c.g, b: c.b, a: 255 }
    }
}

/// The digits of a colour, behind any of the three prefixes, read back as
/// that colour; without alpha digits, as that colour made opaque.
pub proof fn lemma_digits_read_back(c: Rgba8, include_alpha: bool, prefix: Seq<char>)
    requires
        is_prefix(prefix),
    ensures
        parse_hex(prefix + hex_digits(c, include_alpha)) == Ok::<Rgba8, HexError>(
            as_read_back(c, include_alpha),
        ),
{
    let d = hex_digits(c, include_alpha);
    let s = prefix + d;
    lemma_byte_round_trip(c.r);
    lemma_byte_round_trip(c.g);
    lemma_byte_round_trip(c.b);
    lemma_byte_round_trip(c.a);
    assert(d[0] == byte_digits(c.r)[0] && d[1] == byte_digits(c.r)[1]);
    assert(d[2] == byte_digits(c.g)[0] && d[3] == byte_digits(c.g)[1]);
    assert(d[4] == byte_digits(c.b)[0] && d[5] == byte_digits(c.b)[1]);
    if include_alpha {
        assert(d[6] == byte_digits(c.a)[0] && d[7] == byte_digits(c.a)[1]);
    }
    assert(d[0] != '#');
    assert(d[1] != 'x');
    let p = prefix.len() as int;
    assert(prefix_len(s) == p);
    assert(forall|i: int| 0 <= i < d.len() ==> s[p + i] == d[i]);
    assert(channel_at(s, p) == Ok::<u8, HexError>(c.r));
    assert(channel_at(s, p + 2) == Ok::<u8, HexError>(c.g));
    assert(channel_at(s, p + 4) == Ok::<u8, HexError>(c.b));
    if include_alpha {
        assert(channel_at(s, p + 6) == Ok::<u8, HexError>(c.a));
    }
}

/// Reading what was written gives the colour back; written without alpha, it
/// comes back opaque.
pub proof fn lemma_hex_round_trip(c: Rgba8, include_alpha: bool)
    ensures
        parse_hex(format_hex(c, include_alpha)) == Ok::<Rgba8, HexError>(
            as_read_back(c, include_alpha),
        ),
{
    lemma_digits_read_back(c, include_alpha, seq!['#']);
}

/// Reading looks at the values of the digits only: two texts of one length
/// and one prefix length, whose characters behind the prefix have the same
/// digit values up to the eighth, read as the same colour or fail alike.
pub proof fn lemma_parse_by_digit_values(s: Seq<char>, t: Seq<char>)
    requires
        s.len() == t.len(),
        prefix_len(s) == prefix_len(t),
        forall|i: int|
            prefix_len(s) <= i < s.len() && i < prefix_len(s) + 8 ==> digit_value(s[i])
                == digit_value(t[i]),
    ensures
        parse_hex(s) == parse_hex(t),
{
    let p = prefix_len(s);
    assert(channel_at(s, p) == channel_at(t, p));
    assert(channel_at(s, p + 2) == channel_at(t, p + 2));
    assert(channel_at(s, p + 4) == channel_at(t, p + 4));
    assert(channel_at(s, p + 6) == channel_at(t, p + 6));
}

/// Whether the characters of a text from `from` up to `to` are all
/// hexadecimal digits, and the text is long enough to hold them.
pub open spec fn has_digits(s: Seq<char>, from: int, to: int) -> bool {
    s.len() >= to && forall|i: int| from <= i < to ==> (#[trigger] digit_value(s[i])) is Some
}

/// Whether a text spells a colour: behind its prefix stand six digits and
/// nothing more, or eight digits and whatever follows them.
pub open spec fn is_hex_text(s: Seq<char>) -> bool {
    let p = prefix_len(s);
    has_digits(s, p, p + 6) && (s.len() == p + 6 || has_digits(s, p + 6, p + 8))
}

/// A text reads as a colour exactly where it spells one. Six digits read as
/// an opaque colour.
pub proof fn lemma_reads_where_spelled(s: Seq<char>)
    ensures
        parse_hex(s) is Ok <==> is_hex_text(s),
        is_hex_text(s) && s.len() == prefix_len(s) + 6 ==> parse_hex(s).unwrap().a == 255,
{
    let p = prefix_len(s);
    if is_hex_text(s) {
        assert(digit_value(s[p]) is Some && digit_value(s[p + 1]) is Some);
        assert(digit_value(s[p + 2]) is Some && digit_value(s[p + 3]) is Some);
        assert(digit_value(s[p + 4]) is Some && digit_value(s[p + 5]) is Some);
        if s.len() != p + 6 {
            assert(digit_value(s[p + 6]) is Some && digit_value(s[p + 7]) is Some);
        }
    }
}

/// A text that spells no colour is too short where it ends before a channel
/// is complete and every channel before that one is made of digits;
/// otherwise it holds what is no digit.
pub proof fn lemma_first_fault(s: Seq<char>)
    requires
        !is_hex_text(s),
    ensures
        parse_hex(s) == Err::<Rgba8, HexError>(HexError::TooShort) <==> exists|k: int|
            0 <= k < 4 && #[trigger] has_digits(s, prefix_len(s), prefix_len(s) + 2 * k)
                && s.len() < prefix_len(s) + 2 * k + 2 && (k == 3 ==> s.len() > prefix_len(s)
                + 6),
        parse_hex(s) == Err::<Rgba8, HexError>(HexError::TooShort) || parse_hex(s) == Err::<
            Rgba8,
            HexError,
        >(HexError::InvalidDigit),
{
    let p = prefix_len(s);
    lemma_reads_where_spelled(s);
    if parse_hex(s) == Err::<Rgba8, HexError>(HexError::TooShort) {
        if channel_at(s, p) is Err {
            assert(has_digits(s, p, p + 2 * 0));
        } else if channel_at(s, p + 2) is Err {
            assert(has_digits(s, p, p + 2 * 1));
        } else if channel_at(s, p + 4) is Err {
            assert(has_digits(s, p, p + 2 * 2));
        } else {
            assert(has_digits(s, p, p + 2 * 3));
        }
    }
    if exists|k: int|
        0 <= k < 4 && #[trigger] has_digits(s, p, p + 2 * k) && s.len() < p + 2 * k + 2 && (k
            == 3 ==> s.len() > p + 6) {
        let k = choose|k: int|
            0 <= k < 4 && #[trigger] has_digits(s, p, p + 2 * k) && s.len() < p + 2 * k + 2 && (k
                == 3 ==> s.len() > p + 6);
        if k >= 1 {
            assert(digit_value(s[p]) is Some && digit_value(s[p + 1]) is Some);
        }
        if k >= 2 {
            assert(digit_value(s[p + 2]) is Some && digit_value(s[p + 3]) is Some);
        }
        if k >= 3 {
            assert(digit_value(s[p + 4]) is Some && digit_value(s[p + 5]) is Some);
        }
    }
}


/// Whether a text is in the form that writing gives: `#`, then six or eight
/// digits, none of them a lower-case letter.
pub open spec fn is_written_form(s: Seq<char>) -> bool {
    &&& s.len() == 7 || s.len() == 9
    &&& s[0] == '#'
    &&& forall|i: int|
        1 <= i < s.len() ==> (#[trigger] digit_value(s[i])) is Some && !('a' <= s[i] <= 'f')
}

/// Writing what was read gives the text back, for a text in the written
/// form: reading and writing are inverse to each other on such texts.
pub proof fn lemma_written_form_round_trip(s: Seq<char>)
    requires
        is_written_form(s),
    ensures
        parse_hex(s) is Ok,
        format_hex(parse_hex(s).unwrap(), s.len() == 9) == s,
{
    assert(prefix_len(s) == 1);
    assert forall|i: int| 1 <= i < s.len() implies digit_char(
        #[trigger] digit_value(s[i]).unwrap(),
    ) == s[i] by {
        assert(digit_value(s[i]) is Some && !('a' <= s[i] <= 'f'));
    }
    assert(digit_value(s[1]) is Some && digit_value(s[2]) is Some);
    assert(digit_value(s[3]) is Some && digit_value(s[4]) is Some);
    assert(digit_value(s[5]) is Some && digit_value(s[6]) is Some);
    if s.len() == 9 {
        assert(digit_value(s[7]) is Some && digit_value(s[8]) is Some);
    }
    let c = parse_hex(s).unwrap();
    let t = format_hex(c, s.len() == 9);
    assert(t.len() == s.len());
    assert forall|i: int| 0 <= i < s.len() implies t[i] == s[i] by {
        if i >= 1 {
            let k = (i - 1) / 2;
            let high = digit_value(s[1 + 2 * k]).unwrap();
            let low = digit_value(s[2 + 2 * k]).unwrap();
            let v = (16 * high + low) as u8;
            assert(v / 16 == high && v % 16 == low);
            assert(digit_char(digit_value(s[1 + 2 * k]).unwrap()) == s[1 + 2 * k]);
            assert(digit_char(digit_value(s[2 + 2 * k]).unwrap()) == s[2 + 2 * k]);
        }
    }
    assert(t =~= s);
}

} // verus!
