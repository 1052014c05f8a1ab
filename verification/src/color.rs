//! Colours as three 8-bit channels, and their `#rrggbb` text form.
use vstd::prelude::*;
use vstd::string::StringExecFns;
use vstd::string::StringSliceAdditionalSpecFns;

verus! {

/// A colour with 8-bit red, green and blue channels.
#[derive(Debug, Clone, Copy, PartialEq, Eq, Structural)]
pub struct Rgb8 {
    pub r: u8,
    pub g: u8,
    pub b: u8,
}

/// Why a colour text was refused.
#[derive(Debug, Clone, Copy, PartialEq, Eq, Structural)]
pub enum ColorError {
    /// After the leading `#` characters the text is not six bytes long.
    InvalidLength,
    /// One of the three channels is not a two-digit hexadecimal number.
    InvalidDigit,
}

/// The text with all its leading `#` bytes removed.
pub open spec fn strip_hashes(b: Seq<u8>) -> Seq<u8>
    decreases b.len(),
{
    if b.len() > 0 && b[0] == 35u8 {
        strip_hashes(b.drop_first())
    } else {
        b
    }
}

/// The value of one hexadecimal digit, in either case.
pub open spec fn hex_digit_value(c: u8) -> Option<u8> {
    if 48 <= c <= 57 {
        Some((c - 48) as u8)
    } else if 97 <= c <= 102 {
        Some((c - 87) as u8)
    } else if 65 <= c <= 70 {
        Some((c - 55) as u8)
    } else {
        None
    }
}

/// The number that a two-byte field denotes in base 16: an optional `+` and then the
/// digits, as `u8::from_str_radix` reads it.
pub open spec fn hex_field_value(a: u8, b: u8) -> Option<u8> {
    if a == 43u8 {
        hex_digit_value(b)
    } else {
        match (hex_digit_value(a), hex_digit_value(b)) {
            (Some(x), Some(y)) => Some((x * 16 + y) as u8),
            _ => None,
        }
    }
}

/// A byte that starts no character of UTF-8 text.
pub open spec fn is_continuation(b: u8) -> bool {
    0x80 <= b < 0xC0
}

/// The colour that a text denotes, or why it denotes none.
pub open spec fn color_from_bytes(bytes: Seq<u8>) -> Result<Rgb8, ColorError> {
    let t = strip_hashes(bytes);
    if t.len() != 6 {
        Err(ColorError::InvalidLength)
    } else {
        match (hex_field_value(t[0], t[1]), hex_field_value(t[2], t[3]), hex_field_value(t[4], t[5])) {
            (Some(r), Some(g), Some(b)) => Ok(Rgb8 { r, g, b }),
            _ => Err(ColorError::InvalidDigit),
        }
    }
}

/// Texts on which the reading of a colour splits a character in two.
pub open spec fn splits_a_character(bytes: Seq<u8>) -> bool {
    let t = strip_hashes(bytes);
    t.len() == 6 && (is_continuation(t[2]) || is_continuation(t[4]))
}

/// The lower-case hexadecimal digit of a value below 16.
pub open spec fn hex_char(n: u8) -> char {
    if n < 10 {
        (48 + n) as char
    } else {
        (87 + n) as char
    }
}

/// The `#rrggbb` form of a colour, with lower-case digits.
pub open spec fn color_text(c: Rgb8) -> Seq<char> {
    seq![
        '#',
        hex_char(c.r / 16),
        hex_char(c.r % 16),
        hex_char(c.g / 16),
        hex_char(c.g % 16),
        hex_char(c.b / 16),
        hex_char(c.b % 16),
    ]
}

fn hex_digit(c: u8) -> (r: Option<u8>)
    ensures
        r == hex_digit_value(c),
{
    if 48 <= c && c <= 57 {
        Some(c - 48)
    } else if 97 <= c && c <= 102 {
        Some(c - 87)
    } else if 65 <= c && c <= 70 {
        Some(c - 55)
    } else {
        None
    }
}

fn hex_field(a: u8, b: u8) -> (r: Option<u8>)
    ensures
        r == hex_field_value(a, b),
{
    if a == 43 {
        hex_digit(b)
    } else {
        match (hex_digit(a), hex_digit(b)) {
            (Some(x), Some(y)) => Some(x * 16 + y),
            _ => None,
        }
    }
}

proof fn lemma_strip_hashes_suffix(b: Seq<u8>)
    ensures
        strip_hashes(b).len() <= b.len(),
        strip_hashes(b) == b.skip(b.len() - strip_hashes(b).len()),
        forall|j: int| 0 <= j < b.len() - strip_hashes(b).len() ==> b[j] == 35u8,
    decreases b.len(),
{
    if b.len() > 0 && b[0] == 35u8 {
        lemma_strip_hashes_suffix(b.drop_first());
        let t = strip_hashes(b.drop_first());
        assert(b.drop_first().skip(b.drop_first().len() - t.len()) =~= b.skip(b.len() - t.len()));
        assert forall|j: int| 0 <= j < b.len() - t.len() implies b[j] == 35u8 by {
            if j > 0 {
                assert(b[j] == b.drop_first()[j - 1]);
            }
        }
    } else {
        assert(b.skip(0) =~= b);
    }
}

/// Reads a colour in the form `#rrggbb` (any number of leading `#`, or none), with
/// hexadecimal digits in either case.
pub fn parse_rgb8(hex_str: &str) -> (r: Result<Rgb8, ColorError>)
    requires
        !splits_a_character(hex_str.spec_bytes()),
    ensures
        r == color_from_bytes(hex_str.spec_bytes()),
{
    let bytes = hex_str.as_bytes();
    let n = bytes.len();
    let mut start: usize = 0;
    proof {
        lemma_strip_hashes_suffix(bytes@);
        assert(bytes@.skip(0) =~= bytes@);
    }
    while start < n && bytes[start] == 35
        invariant
            n == bytes@.len(),
            start <= n,
            strip_hashes(bytes@.skip(start as int)) == strip_hashes(bytes@),
        decreases n - start,
    {
        assert(bytes@.skip(start as int).drop_first() =~= bytes@.skip(start + 1));
        start = start + 1;
    }
    let ghost t = bytes@.skip(start as int);
    assert(strip_hashes(t) == t);
    if n - start != 6 {
        return Err(ColorError::InvalidLength);
    }
    let r = hex_field(bytes[start], bytes[start + 1]);
    let g = hex_field(bytes[start + 2], bytes[start + 3]);
    let b = hex_field(bytes[start + 4], bytes[start + 5]);
    assert(t[0] == bytes@[start as int]);
    match (r, g, b) {
        (Some(r), Some(g), Some(b)) => Ok(Rgb8 { r, g, b }),
        _ => Err(ColorError::InvalidDigit),
    }
}

fn hex_digit_str(n: u8) -> (r: &'static str)
    requires
        n < 16,
    ensures
        r@ == seq![hex_char(n)],
{
    proof {
        reveal_strlit("0");
        reveal_strlit("1");
        reveal_strlit("2");
        reveal_strlit("3");
        reveal_strlit("4");
        reveal_strlit("5");
        reveal_strlit("6");
        reveal_strlit("7");
        reveal_strlit("8");
        reveal_strlit("9");
        reveal_strlit("a");
        reveal_strlit("b");
        reveal_strlit("c");
        reveal_strlit("d");
        reveal_strlit("e");
        reveal_strlit("f");
    }
    let r = match n {
        0 => "0",
        1 => "1",
        2 => "2",
        3 => "3",
        4 => "4",
        5 => "5",
        6 => "6",
        7 => "7",
        8 => "8",
        9 => "9",
        10 => "a",
        11 => "b",
        12 => "c",
        13 => "d",
        14 => "e",
        _ => "f",
    };
    assert(r@ =~= seq![hex_char(n)]);
    r
}

/// The `#rrggbb` text of a colour, with lower-case digits.
pub fn format_rgb8(color: &Rgb8) -> (r: String)
    ensures
        r@ == color_text(*color),
{
    proof {
        reveal_strlit("#");
    }
    let mut s = "#".to_owned();
    s.append(hex_digit_str(color.r / 16));
    s.append(hex_digit_str(color.r % 16));
    s.append(hex_digit_str(color.g / 16));
    s.append(hex_digit_str(color.g % 16));
    s.append(hex_digit_str(color.b / 16));
    s.append(hex_digit_str(color.b % 16));
    assert(s@ =~= color_text(*color));
    s
}

/// The text of an optional colour: its `#rrggbb` form, or nothing.
pub fn format_opt_rgb8(color: &Option<Rgb8>) -> (r: String)
    ensures
        r@ == match color {
            Some(c) => color_text(*c),
            None => Seq::<char>::empty(),
        },
{
    match color {
        Some(c) => format_rgb8(c),
        None => String::new(),
    }
}

/// Reading back the text of a colour gives the colour.
pub proof fn lemma_color_text_round_trip(c: Rgb8)
    ensures
        vstd::utf8::is_ascii_chars(color_text(c)),
        !splits_a_character(vstd::utf8::encode_utf8(color_text(c))),
        color_from_bytes(vstd::utf8::encode_utf8(color_text(c))) == Ok::<Rgb8, ColorError>(c),
{
    let t = color_text(c);
    assert(vstd::utf8::is_ascii_chars(t));
    vstd::utf8::is_ascii_chars_encode_utf8(t);
    let b = vstd::utf8::encode_utf8(t);
    assert(b.len() == 7);
    assert(b[0] == 35u8);
    let rest = b.drop_first();
    assert(rest.len() == 6);
    assert(rest[0] != 35u8);
    assert(strip_hashes(b) == strip_hashes(rest));
    assert(strip_hashes(rest) == rest);
    assert(hex_field_value(rest[0], rest[1]) == Some(c.r));
    assert(hex_field_value(rest[2], rest[3]) == Some(c.g));
    assert(hex_field_value(rest[4], rest[5]) == Some(c.b));
}

} // verus!
