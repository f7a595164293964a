//! Colours as hexadecimal text: reading `RRGGBB` and `RRGGBBAA`, writing
//! `rrggbb`.

use crate::pixel::Pixel;
use crate::text::ascii;
use hex_color::HexColor;
use hex_color::ParseHexColorError;
use vstd::prelude::*;
use vstd::string::*;

verus! {

/// The error of `hex_color::HexColor::parse`. Nothing is read from it.
#[verifier::external_type_specification]
#[verifier::external_body]
pub struct ExParseHexColorError(hex_color::ParseHexColorError);

/// Whether `c` is a hexadecimal digit, in either case.
pub open spec fn is_hex_digit(c: char) -> bool {
    ||| '0' <= c <= '9'
    ||| 'a' <= c <= 'f'
    ||| 'A' <= c <= 'F'
}

/// The number from 0 to 15 that the hexadecimal digit `c` stands for.
pub open spec fn hex_value(c: char) -> nat
    recommends
        is_hex_digit(c),
{
    if '0' <= c <= '9' {
        (c as nat - '0' as nat) as nat
    } else if 'a' <= c <= 'f' {
        (c as nat - 'a' as nat + 10) as nat
    } else {
        (c as nat - 'A' as nat + 10) as nat
    }
}

/// The channel that the two digits at `at` and `at + 1` write.
pub open spec fn channel(s: Seq<char>, at: int) -> u8
    recommends
        0 <= at,
        at + 1 < s.len(),
{
    (16 * hex_value(s[at]) + hex_value(s[at + 1])) as u8
}

/// Whether `s` is `#` followed by exactly six or exactly eight hexadecimal
/// digits.
pub open spec fn is_color_text(s: Seq<char>) -> bool {
    &&& (s.len() == 7 || s.len() == 9)
    &&& s[0] == '#'
    &&& forall|i: int| 1 <= i < s.len() ==> is_hex_digit(#[trigger] s[i])
}

/// The colour that `#RRGGBB` or `#RRGGBBAA` writes. Without the last pair
/// the colour is fully opaque.
pub open spec fn color_of_text(s: Seq<char>) -> Pixel
    recommends
        is_color_text(s),
{
    Pixel {
        r: channel(s, 1),
        g: channel(s, 3),
        b: channel(s, 5),
        a: if s.len() == 9 {
            channel(s, 7)
        } else {
            255
        },
    }
}

/// A colour token with `#` put in front unless it already starts with one.
pub open spec fn with_hash(token: Seq<char>) -> Seq<char> {
    if token.len() > 0 && token[0] == '#' {
        token
    } else {
        seq!['#'] + token
    }
}

/// The colour that a token of the protocol writes, if it writes one.
pub open spec fn color(token: Seq<char>) -> Option<Pixel> {
    if is_color_text(with_hash(token)) {
        Some(color_of_text(with_hash(token)))
    } else {
        None
    }
}

/// The upper-case hexadecimal digit for `v`, for `v` below sixteen.
pub open spec fn upper_hex_char(v: nat) -> char {
    if v < 10 {
        ('0' as nat + v) as char
    } else {
        ('A' as nat + v - 10) as char
    }
}

/// The lower-case hexadecimal digit for `v`, for `v` below sixteen.
pub open spec fn lower_hex_char(v: nat) -> char {
    if v < 10 {
        ('0' as nat + v) as char
    } else {
        ('a' as nat + v - 10) as char
    }
}

/// `#RRGGBB` in upper case; alpha is left out.
pub open spec fn upper_hex_text(p: Pixel) -> Seq<char> {
    seq![
        '#',
        upper_hex_char(p.r as nat / 16),
        upper_hex_char(p.r as nat % 16),
        upper_hex_char(p.g as nat / 16),
        upper_hex_char(p.g as nat % 16),
        upper_hex_char(p.b as nat / 16),
        upper_hex_char(p.b as nat % 16),
    ]
}

/// `rrggbb` in lower case; alpha is left out.
pub open spec fn lower_hex(p: Pixel) -> Seq<char> {
    seq![
        lower_hex_char(p.r as nat / 16),
        lower_hex_char(p.r as nat % 16),
        lower_hex_char(p.g as nat / 16),
        lower_hex_char(p.g as nat % 16),
        lower_hex_char(p.b as nat / 16),
        lower_hex_char(p.b as nat % 16),
    ]
}

/// The digits that a colour is written with read back as that colour,
/// fully opaque.
pub proof fn law_lower_hex_reads_back(p: Pixel)
    ensures
        color(lower_hex(p)) == Some(p.opaque()),
{
    let text = with_hash(lower_hex(p));
}

/// Calls `hex_color::HexColor::parse` on the characters of `text`.
///
/// Trusted: on `#` followed by exactly six or exactly eight hexadecimal
/// digits, in either case, the call succeeds; each pair of digits gives one
/// channel, in the order red, green, blue, alpha; six digits give alpha 255.
/// It is called on such text only: what else `parse` accepts, `#RGB` and
/// `#RGBA` among it, is no colour of this protocol.
#[verifier::external_body]
fn parse_hex_color(text: &Vec<char>) -> (res: Result<Pixel, ParseHexColorError>)
    requires
        is_color_text(text@),
    ensures
        res is Ok,
        res->Ok_0 == color_of_text(text@),
{
    let s: String = text.iter().collect();
    match HexColor::parse(&s) {
        Ok(c) => Ok(Pixel { r: c.r, g: c.g, b: c.b, a: c.a }),
        Err(e) => Err(e),
    }
}

/// Formats a colour through the `Display` impl of `hex_color::HexColor`.
///
/// Trusted: the text is `#` and the red, green and blue channels, two
/// upper-case hexadecimal digits each; alpha is not written.
#[verifier::external_body]
fn display_hex_color(p: Pixel) -> (shown: String)
    ensures
        shown@ == upper_hex_text(p),
{
    HexColor { r: p.r, g: p.g, b: p.b, a: p.a }.to_string()
}

/// The code of an upper-case ASCII letter turned into that of the
/// lower-case letter; any other code as it is.
pub open spec fn lower_case(b: u8) -> u8 {
    if 'A' as u8 <= b <= 'Z' as u8 {
        (b + ('a' as u8 - 'A' as u8)) as u8
    } else {
        b
    }
}

/// Turns the code of an upper-case ASCII letter into lower case.
fn to_lower_case(b: u8) -> (low: u8)
    ensures
        low == lower_case(b),
{
    if b >= 65 && b <= 90 {
        b + 32
    } else {
        b
    }
}

/// Whether `c` is a hexadecimal digit.
fn hex_digit(c: char) -> (yes: bool)
    ensures
        yes == is_hex_digit(c),
{
    (c >= '0' && c <= '9') || (c >= 'a' && c <= 'f') || (c >= 'A' && c <= 'F')
}

/// Whether `text` is `#` followed by six or eight hexadecimal digits.
fn color_text(text: &Vec<char>) -> (yes: bool)
    ensures
        yes == is_color_text(text@),
{
    if !(text.len() == 7 || text.len() == 9) {
        return false;
    }
    if text[0] != '#' {
        return false;
    }
    let mut i: usize = 1;
    while i < text.len()
        invariant
            1 <= i <= text.len(),
            forall|k: int| 1 <= k < i ==> is_hex_digit(#[trigger] text@[k]),
        decreases text.len() - i,
    {
        if !hex_digit(text[i]) {
            return false;
        }
        i = i + 1;
    }
    true
}

/// Reads a colour token: `RRGGBB` or `RRGGBBAA`, with or without a leading
/// `#`, digits in either case.
pub fn parse_color(token: &Vec<char>) -> (res: Option<Pixel>)
    ensures
        res == color(token@),
{
    let mut text: Vec<char> = Vec::new();
    if !(token.len() > 0 && token[0] == '#') {
        text.push('#');
    }
    let ghost head = text@;
    let mut i: usize = 0;
    while i < token.len()
        invariant
            i <= token.len(),
            text@ == head + token@.take(i as int),
        decreases token.len() - i,
    {
        text.push(token[i]);
        i = i + 1;
    }
    assert(text@ =~= with_hash(token@));
    if !color_text(&text) {
        return None;
    }
    match parse_hex_color(&text) {
        Ok(p) => Some(p),
        Err(_) => None,
    }
}

/// Appends `rrggbb`, the colour in lower-case hexadecimal, to `out`.
pub fn push_lower_hex(out: &mut Vec<u8>, p: Pixel)
    ensures
        final(out)@ == old(out)@ + ascii(lower_hex(p)),
{
    let shown = display_hex_color(p);
    let text = shown.as_str();
    assert(is_ascii(text));
    let bytes = text.as_bytes();
    let mut i: usize = 1;
    while i < bytes.len()
        invariant
            1 <= i <= bytes.len(),
            bytes@ == ascii(upper_hex_text(p)),
            out@ == old(out)@ + ascii(lower_hex(p)).take(i - 1),
        decreases bytes.len() - i,
    {
        let low = to_lower_case(bytes[i]);
        out.push(low);
        i = i + 1;
    }
}

} // verus!
