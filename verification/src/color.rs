//! RGB color values and their canonical `#rrggbb` textual form.

use vstd::prelude::*;

use crate::errors::ProtoError;
use crate::text::{chars_of_str, string_from_chars};

verus! {

/// An RGB color with three 8-bit channels. Its canonical textual form is
/// `#rrggbb`: lowercase hex, no alpha.
#[derive(Debug, Clone, Copy, PartialEq, Eq, Structural)]
pub struct ColorValue {
    pub r: u8,
    pub g: u8,
    pub b: u8,
}

/// Whether `c` is a hexadecimal digit (either case).
pub open spec fn is_hex_digit(c: char) -> bool {
    ('0' as u32 <= c as u32 && c as u32 <= '9' as u32) || ('a' as u32 <= c as u32 && c as u32
        <= 'f' as u32) || ('A' as u32 <= c as u32 && c as u32 <= 'F' as u32)
}

/// The value of a hexadecimal digit.
pub open spec fn hex_digit_value(c: char) -> int {
    if '0' as u32 <= c as u32 && c as u32 <= '9' as u32 {
        c as u32 - '0' as u32
    } else if 'a' as u32 <= c as u32 && c as u32 <= 'f' as u32 {
        c as u32 - 'a' as u32 + 10
    } else {
        c as u32 - 'A' as u32 + 10
    }
}

/// The lowercase hexadecimal digit for a value below 16.
pub open spec fn hex_char(v: int) -> char {
    if v == 0 {
        '0'
    } else if v == 1 {
        '1'
    } else if v == 2 {
        '2'
    } else if v == 3 {
        '3'
    } else if v == 4 {
        '4'
    } else if v == 5 {
        '5'
    } else if v == 6 {
        '6'
    } else if v == 7 {
        '7'
    } else if v == 8 {
        '8'
    } else if v == 9 {
        '9'
    } else if v == 10 {
        'a'
    } else if v == 11 {
        'b'
    } else if v == 12 {
        'c'
    } else if v == 13 {
        'd'
    } else if v == 14 {
        'e'
    } else {
        'f'
    }
}

/// The two lowercase hex digits of a byte.
pub open spec fn byte_chars(v: u8) -> Seq<char> {
    seq![hex_char(v as int / 16), hex_char(v as int % 16)]
}

/// The canonical text of a color: `#` followed by six lowercase hex digits.
pub open spec fn color_chars(c: ColorValue) -> Seq<char> {
    seq!['#'] + byte_chars(c.r) + byte_chars(c.g) + byte_chars(c.b)
}

/// Whether `s` is acceptable color text: `#` followed by exactly six hex
/// digits, either case.
pub open spec fn valid_color_chars(s: Seq<char>) -> bool {
    &&& s.len() == 7
    &&& s[0] == '#'
    &&& forall|i: int| 1 <= i < 7 ==> is_hex_digit(#[trigger] s[i])
}

/// The color denoted by acceptable color text.
pub open spec fn color_of_chars(s: Seq<char>) -> ColorValue {
    ColorValue {
        r: (hex_digit_value(s[1]) * 16 + hex_digit_value(s[2])) as u8,
        g: (hex_digit_value(s[3]) * 16 + hex_digit_value(s[4])) as u8,
        b: (hex_digit_value(s[5]) * 16 + hex_digit_value(s[6])) as u8,
    }
}

/// A canonical lowercase hex digit is a hex digit and denotes its value.
pub proof fn lemma_hex_char_value(v: int)
    requires
        0 <= v < 16,
    ensures
        is_hex_digit(hex_char(v)),
        hex_digit_value(hex_char(v)) == v,
{
}

/// The value of a hex digit character, or `None` for any other character.
pub(crate) fn hex_digit_value_exec(c: char) -> (r: Option<u8>)
    ensures
        r is Some <==> is_hex_digit(c),
        r matches Some(v) ==> v == hex_digit_value(c) && v < 16,
{
    let u = c as u32;
    if 48 <= u && u <= 57 {
        Some((u - 48) as u8)
    } else if 97 <= u && u <= 102 {
        Some((u - 97 + 10) as u8)
    } else if 65 <= u && u <= 70 {
        Some((u - 65 + 10) as u8)
    } else {
        None
    }
}

/// The lowercase hex digit character for a value below 16.
pub(crate) fn hex_char_exec(v: u8) -> (c: char)
    requires
        v < 16,
    ensures
        c == hex_char(v as int),
{
    if v == 0 {
        '0'
    } else if v == 1 {
        '1'
    } else if v == 2 {
        '2'
    } else if v == 3 {
        '3'
    } else if v == 4 {
        '4'
    } else if v == 5 {
        '5'
    } else if v == 6 {
        '6'
    } else if v == 7 {
        '7'
    } else if v == 8 {
        '8'
    } else if v == 9 {
        '9'
    } else if v == 10 {
        'a'
    } else if v == 11 {
        'b'
    } else if v == 12 {
        'c'
    } else if v == 13 {
        'd'
    } else if v == 14 {
        'e'
    } else {
        'f'
    }
}

/// Appends the two lowercase hex digits of `v` to `out`.
pub(crate) fn push_byte_chars(out: &mut Vec<char>, v: u8)
    ensures
        final(out)@ == old(out)@ + byte_chars(v),
{
    out.push(hex_char_exec(v / 16));
    out.push(hex_char_exec(v % 16));
    proof {
        assert(final(out)@ =~= old(out)@ + byte_chars(v));
    }
}

impl ColorValue {
    /// Parses color text: accepts exactly `#` followed by six hex digits
    /// (either case) and rejects everything else, never clamping.
    pub fn parse(s: &str) -> (r: Result<ColorValue, ProtoError>)
        ensures
            valid_color_chars(s@) ==> r == Ok::<ColorValue, ProtoError>(color_of_chars(s@)),
            !valid_color_chars(s@) ==> r == Err::<ColorValue, ProtoError>(ProtoError::InvalidColor),
    {
        let chars = chars_of_str(s);
        Self::parse_chars(&chars)
    }

    /// Parses color text given as characters; same acceptance as [`Self::parse`].
    pub fn parse_chars(chars: &Vec<char>) -> (r: Result<ColorValue, ProtoError>)
        ensures
            valid_color_chars(chars@) ==> r == Ok::<ColorValue, ProtoError>(
                color_of_chars(chars@),
            ),
            !valid_color_chars(chars@) ==> r == Err::<ColorValue, ProtoError>(
                ProtoError::InvalidColor,
            ),
    {
        if chars.len() != 7 {
            return Err(ProtoError::InvalidColor);
        }
        if chars[0] != '#' {
            return Err(ProtoError::InvalidColor);
        }
        let mut digits: [u8; 6] = [0, 0, 0, 0, 0, 0];
        let mut i: usize = 0;
        while i < 6
            invariant
                chars@.len() == 7,
                i <= 6,
                forall|j: int| 0 <= j < i ==> is_hex_digit(#[trigger] chars@[j + 1]),
                forall|j: int|
                    0 <= j < i ==> #[trigger] digits@[j] == hex_digit_value(chars@[j + 1])
                        && digits@[j] < 16,
            decreases 6 - i,
        {
            match hex_digit_value_exec(chars[i + 1]) {
                Some(v) => {
                    digits[i] = v;
                },
                None => {
                    return Err(ProtoError::InvalidColor);
                },
            }
            i += 1;
        }
        Ok(
            ColorValue {
                r: digits[0] * 16 + digits[1],
                g: digits[2] * 16 + digits[3],
                b: digits[4] * 16 + digits[5],
            },
        )
    }

    /// Formats the color in its canonical form: lowercase `#rrggbb`.
    pub fn format(&self) -> (r: String)
        ensures
            r@ == color_chars(*self),
    {
        let mut out: Vec<char> = Vec::new();
        out.push('#');
        push_byte_chars(&mut out, self.r);
        push_byte_chars(&mut out, self.g);
        push_byte_chars(&mut out, self.b);
        proof {
            assert(out@ =~= color_chars(*self));
        }
        string_from_chars(&out)
    }
}

/// A byte's canonical hex digits are hex digits and denote the byte again.
pub proof fn lemma_byte_chars_value(v: u8)
    ensures
        is_hex_digit(byte_chars(v)[0]),
        is_hex_digit(byte_chars(v)[1]),
        hex_digit_value(byte_chars(v)[0]) * 16 + hex_digit_value(byte_chars(v)[1]) == v,
{
    vstd::arithmetic::div_mod::lemma_fundamental_div_mod(v as int, 16);
}

/// Law: formatting a color and parsing the text yields the color back, for
/// every representable color.
pub proof fn lemma_color_round_trip(c: ColorValue)
    ensures
        valid_color_chars(color_chars(c)),
        color_of_chars(color_chars(c)) == c,
{
    lemma_byte_chars_value(c.r);
    lemma_byte_chars_value(c.g);
    lemma_byte_chars_value(c.b);
    assert(forall|i: int| 1 <= i < 7 ==> is_hex_digit(#[trigger] color_chars(c)[i]));
}

} // verus!
