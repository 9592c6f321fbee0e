//! Parsing of crosshair colours written in hexadecimal: `RGB`, `RRGGBB` or
//! `RRGGBBAA`, each with an optional leading `#` and surrounding white space.
use vstd::prelude::*;
use vstd::utf8::{
    encode_scalar, encode_utf8, has_width_1_encoding, has_width_2_encoding, has_width_3_encoding,
};

verus! {

/// The byte of `#`.
pub const HASH: u8 = 0x23;

/// A colour with 8 bits per channel.
#[derive(Clone, Copy, Debug, PartialEq, Eq, Structural)]
pub struct Rgba8 {
    pub r: u8,
    pub g: u8,
    pub b: u8,
    pub a: u8,
}

/// One channel of a colour.
#[derive(Clone, Copy, Debug, PartialEq, Eq, Structural)]
pub enum Channel {
    Red,
    Green,
    Blue,
    Alpha,
}

/// Why a colour could not be parsed.
#[derive(Clone, Copy, Debug, PartialEq, Eq, Structural)]
pub enum HexColorError {
    /// The text of this channel is not two hexadecimal digits (in the short
    /// format, not one).
    InvalidComponent(Channel),
    /// The digits are neither 3, 6 nor 8 bytes long.
    InvalidFormat,
}

/// The message that the error is reported with.
pub open spec fn error_message(e: HexColorError) -> Seq<char> {
    match e {
        HexColorError::InvalidComponent(Channel::Red) => "Invalid red component"@,
        HexColorError::InvalidComponent(Channel::Green) => "Invalid green component"@,
        HexColorError::InvalidComponent(Channel::Blue) => "Invalid blue component"@,
        HexColorError::InvalidComponent(Channel::Alpha) => "Invalid alpha component"@,
        HexColorError::InvalidFormat => "Color must be in format RGB, RRGGBB, or RRGGBBAA"@,
    }
}

impl HexColorError {
    /// The message that the error is reported with.
    pub fn message(&self) -> (m: String)
        ensures
            m@ == error_message(*self),
    {
        match self {
            HexColorError::InvalidComponent(Channel::Red) => "Invalid red component".to_owned(),
            HexColorError::InvalidComponent(Channel::Green) => "Invalid green component".to_owned(),
            HexColorError::InvalidComponent(Channel::Blue) => "Invalid blue component".to_owned(),
            HexColorError::InvalidComponent(Channel::Alpha) => "Invalid alpha component".to_owned(),
            HexColorError::InvalidFormat => "Color must be in format RGB, RRGGBB, or RRGGBBAA".to_owned(),
        }
    }
}

/* White space, as `str::trim` removes it */

/// Whether `c` has the Unicode `White_Space` property, which is what
/// `char::is_whitespace`, and so `str::trim`, test.
pub open spec fn is_unicode_white_space(c: char) -> bool {
    let v = c as u32;
    ||| 0x09 <= v <= 0x0D
    ||| v == 0x20
    ||| v == 0x85
    ||| v == 0xA0
    ||| v == 0x1680
    ||| 0x2000 <= v <= 0x200A
    ||| v == 0x2028
    ||| v == 0x2029
    ||| v == 0x202F
    ||| v == 0x205F
    ||| v == 0x3000
}

/// `s` without its leading white space.
pub open spec fn trim_start_white_space(s: Seq<char>) -> Seq<char>
    decreases s.len(),
{
    if s.len() > 0 && is_unicode_white_space(s[0]) {
        trim_start_white_space(s.drop_first())
    } else {
        s
    }
}

/// `s` without its trailing white space.
pub open spec fn trim_end_white_space(s: Seq<char>) -> Seq<char>
    decreases s.len(),
{
    if s.len() > 0 && is_unicode_white_space(s.last()) {
        trim_end_white_space(s.drop_last())
    } else {
        s
    }
}

/// `s` without its leading and trailing white space.
pub open spec fn trim_white_space(s: Seq<char>) -> Seq<char> {
    trim_end_white_space(trim_start_white_space(s))
}

/// `str::trim`: the slice of `s` without its leading and trailing characters
/// that have the Unicode `White_Space` property.
#[verifier::external_body]
fn trim(s: &str) -> (t: &str)
    ensures
        t@ == trim_white_space(s@),
{
    s.trim()
}

/* The colour formats */

/// The value of one hexadecimal digit (`0-9`, `a-f`, `A-F`), given by its byte.
pub open spec fn hex_digit_value(b: u8) -> Option<u8> {
    if 0x30 <= b <= 0x39 {
        Some((b - 0x30) as u8)
    } else if 0x61 <= b <= 0x66 {
        Some((b - 0x61 + 10) as u8)
    } else if 0x41 <= b <= 0x46 {
        Some((b - 0x41 + 10) as u8)
    } else {
        None
    }
}

/// The byte that the two hexadecimal digits `hi` and `lo` write, most
/// significant first; `None` unless both are hexadecimal digits.
pub open spec fn hex_pair_value(hi: u8, lo: u8) -> Option<u8> {
    match (hex_digit_value(hi), hex_digit_value(lo)) {
        (Some(h), Some(l)) => Some((h * 16 + l) as u8),
        _ => None,
    }
}

/// Whether `hex` has the length of one of the formats `RGB`, `RRGGBB`, `RRGGBBAA`.
pub open spec fn has_color_length(hex: Seq<u8>) -> bool {
    hex.len() == 3 || hex.len() == 6 || hex.len() == 8
}

/// The number of components that the format of `hex` holds.
pub open spec fn component_count(hex: Seq<u8>) -> int {
    if hex.len() == 8 {
        4
    } else {
        3
    }
}

/// The value of component `k`: in the short format its one digit written
/// twice, else the two digits at `2 * k`. Any byte that is no hexadecimal
/// digit, a byte of a multi-byte character among them, makes it `None`.
pub open spec fn component(hex: Seq<u8>, k: int) -> Option<u8> {
    if hex.len() == 3 {
        hex_pair_value(hex[k], hex[k])
    } else {
        hex_pair_value(hex[2 * k], hex[2 * k + 1])
    }
}

/// The colour that the digits `hex` (after any `#`) stand for, or the first
/// error met: a wrong length first, then the channels in order.
pub open spec fn spec_parse_hex_digits(hex: Seq<u8>) -> Result<Rgba8, HexColorError> {
    if !has_color_length(hex) {
        Err(HexColorError::InvalidFormat)
    } else if component(hex, 0) is None {
        Err(HexColorError::InvalidComponent(Channel::Red))
    } else if component(hex, 1) is None {
        Err(HexColorError::InvalidComponent(Channel::Green))
    } else if component(hex, 2) is None {
        Err(HexColorError::InvalidComponent(Channel::Blue))
    } else if hex.len() == 8 && component(hex, 3) is None {
        Err(HexColorError::InvalidComponent(Channel::Alpha))
    } else {
        Ok(
            Rgba8 {
                r: component(hex, 0).unwrap(),
                g: component(hex, 1).unwrap(),
                b: component(hex, 2).unwrap(),
                a: if hex.len() == 8 {
                    component(hex, 3).unwrap()
                } else {
                    255
                },
            },
        )
    }
}

/// The digits of a colour string: its UTF-8 bytes without surrounding white
/// space and without one leading `#`.
pub open spec fn color_digits(color: Seq<char>) -> Seq<u8> {
    let t = encode_utf8(trim_white_space(color));
    if t.len() > 0 && t[0] == HASH {
        t.drop_first()
    } else {
        t
    }
}

/// The colour that the string `color` stands for, or why it does not.
pub open spec fn spec_parse_hex_color(color: Seq<char>) -> Result<Rgba8, HexColorError> {
    spec_parse_hex_digits(color_digits(color))
}

/* Executable parsing */

/// The value of the hexadecimal digit `b`, if it is one.
pub fn hex_digit(b: u8) -> (d: Option<u8>)
    ensures
        d == hex_digit_value(b),
{
    if 0x30 <= b && b <= 0x39 {
        Some(b - 0x30)
    } else if 0x61 <= b && b <= 0x66 {
        Some(b - 0x61 + 10)
    } else if 0x41 <= b && b <= 0x46 {
        Some(b - 0x41 + 10)
    } else {
        None
    }
}

/// The byte that the two hexadecimal digits `hi` and `lo` write.
pub fn parse_hex_pair(hi: u8, lo: u8) -> (v: Option<u8>)
    ensures
        v == hex_pair_value(hi, lo),
{
    match (hex_digit(hi), hex_digit(lo)) {
        (Some(h), Some(l)) => Some(h * 16 + l),
        _ => None,
    }
}

/// Reads component `k` of the digits `hex`.
fn parse_component(hex: &[u8], k: usize) -> (v: Option<u8>)
    requires
        has_color_length(hex@),
        k < component_count(hex@),
    ensures
        v == component(hex@, k as int),
{
    if hex.len() == 3 {
        parse_hex_pair(hex[k], hex[k])
    } else {
        parse_hex_pair(hex[2 * k], hex[2 * k + 1])
    }
}

/// Parses the digits of a colour (what follows any `#`): three digits `RGB`,
/// each written twice, or six `RRGGBB`, both opaque, or eight `RRGGBBAA`.
pub fn parse_hex_digits(hex: &[u8]) -> (res: Result<Rgba8, HexColorError>)
    ensures
        res == spec_parse_hex_digits(hex@),
{
    let len = hex.len();
    if len != 3 && len != 6 && len != 8 {
        return Err(HexColorError::InvalidFormat);
    }
    let r = match parse_component(hex, 0) {
        Some(v) => v,
        None => return Err(HexColorError::InvalidComponent(Channel::Red)),
    };
    let g = match parse_component(hex, 1) {
        Some(v) => v,
        None => return Err(HexColorError::InvalidComponent(Channel::Green)),
    };
    let b = match parse_component(hex, 2) {
        Some(v) => v,
        None => return Err(HexColorError::InvalidComponent(Channel::Blue)),
    };
    let a = if len == 8 {
        match parse_component(hex, 3) {
            Some(v) => v,
            None => return Err(HexColorError::InvalidComponent(Channel::Alpha)),
        }
    } else {
        255
    };
    Ok(Rgba8 { r, g, b, a })
}

/// The digits of `bytes`, without one leading `#`.
fn strip_hash(bytes: &[u8]) -> (hex: &[u8])
    ensures
        hex@ == (if bytes@.len() > 0 && bytes@[0] == HASH {
            bytes@.drop_first()
        } else {
            bytes@
        }),
{
    if bytes.len() > 0 && bytes[0] == HASH {
        vstd::slice::slice_subrange(bytes, 1, bytes.len())
    } else {
        bytes
    }
}

/// Parses a colour written in hexadecimal (`RGB`, `RRGGBB` or `RRGGBBAA`),
/// with an optional leading `#` and surrounding white space.
pub fn parse_hex_color(color: &str) -> (res: Result<Rgba8, HexColorError>)
    ensures
        res == spec_parse_hex_color(color@),
{
    let trimmed = trim(color);
    parse_hex_digits(strip_hash(trimmed.as_bytes()))
}

/* Laws of colour parsing */

/// `b` with an ASCII capital letter turned into a small one.
pub open spec fn ascii_lowercase(b: u8) -> u8 {
    if 0x41 <= b <= 0x5A {
        (b + 32) as u8
    } else {
        b
    }
}

/// `b` with an ASCII small letter turned into a capital one.
pub open spec fn ascii_uppercase(b: u8) -> u8 {
    if 0x61 <= b <= 0x7A {
        (b - 32) as u8
    } else {
        b
    }
}

/// The case of the digits does not matter: turning every ASCII letter into a
/// small one, or every one into a capital one, changes neither the colour nor
/// the error.
pub proof fn lemma_case_is_ignored(hex: Seq<u8>)
    ensures
        spec_parse_hex_digits(hex.map_values(|b: u8| ascii_lowercase(b))) == spec_parse_hex_digits(
            hex,
        ),
        spec_parse_hex_digits(hex.map_values(|b: u8| ascii_uppercase(b))) == spec_parse_hex_digits(
            hex,
        ),
{
    lemma_case_map_is_ignored(hex, |b: u8| ascii_lowercase(b));
    lemma_case_map_is_ignored(hex, |b: u8| ascii_uppercase(b));
}

/// A map of bytes that keeps the value of every byte as a hexadecimal digit
/// changes nothing that parsing sees.
proof fn lemma_case_map_is_ignored(hex: Seq<u8>, f: spec_fn(u8) -> u8)
    requires
        forall|b: u8| #[trigger] f(b) == ascii_lowercase(b) || f(b) == ascii_uppercase(b),
    ensures
        spec_parse_hex_digits(hex.map_values(f)) == spec_parse_hex_digits(hex),
{
    let m = hex.map_values(f);
    assert(m.len() == hex.len());
    assert forall|b: u8| hex_digit_value(#[trigger] f(b)) == hex_digit_value(b) by {}
    if has_color_length(hex) {
        assert forall|k: int| 0 <= k < component_count(hex) implies #[trigger] component(m, k)
            == component(hex, k) by {
            if hex.len() == 3 {
                assert(m[k] == f(hex[k]));
            } else {
                assert(m[2 * k] == f(hex[2 * k]));
                assert(m[2 * k + 1] == f(hex[2 * k + 1]));
            }
        }
        assert(component(m, 0) == component(hex, 0));
        assert(component(m, 1) == component(hex, 1));
        assert(component(m, 2) == component(hex, 2));
        if hex.len() == 8 {
            assert(component(m, 3) == component(hex, 3));
        }
    }
}

/// The short form writes each digit once: `RGB` is the colour `RRGGBB`.
pub proof fn lemma_short_form_doubles_digits(x: u8, y: u8, z: u8)
    ensures
        spec_parse_hex_digits(seq![x, y, z]) == spec_parse_hex_digits(seq![x, x, y, y, z, z]),
{
}

/// Six digits are an opaque colour: `RRGGBB` is the colour `RRGGBBff`.
pub proof fn lemma_six_digits_are_opaque(hex: Seq<u8>)
    requires
        hex.len() == 6,
    ensures
        spec_parse_hex_digits(hex + seq![0x66u8, 0x66u8]) == spec_parse_hex_digits(hex),
{
    let long = hex + seq![0x66u8, 0x66u8];
    assert(long[6] == 0x66u8 && long[7] == 0x66u8);
    assert(hex_digit_value(0x66u8) == Some(15u8));
    assert(component(long, 3) == Some(255u8));
    assert forall|j: int| 0 <= j < 3 implies #[trigger] component(long, j) == component(hex, j) by {
        assert(long[2 * j] == hex[2 * j] && long[2 * j + 1] == hex[2 * j + 1]);
    }
    assert(component(long, 0) == component(hex, 0));
    assert(component(long, 1) == component(hex, 1));
    assert(component(long, 2) == component(hex, 2));
}

/// Only hexadecimal digits are accepted: every colour that parses is written
/// with hexadecimal digits alone, and has one of the three lengths.
pub proof fn lemma_only_hex_digits_parse(hex: Seq<u8>)
    requires
        spec_parse_hex_digits(hex) is Ok,
    ensures
        has_color_length(hex),
        forall|i: int| 0 <= i < hex.len() ==> (#[trigger] hex_digit_value(hex[i])) is Some,
{
    assert forall|i: int| 0 <= i < hex.len() implies (#[trigger] hex_digit_value(hex[i])) is Some by {
        if hex.len() == 3 {
            assert(component(hex, i) is Some);
        } else {
            let k = i / 2;
            assert(0 <= k < component_count(hex));
            assert(component(hex, k) is Some);
            assert(i == 2 * k || i == 2 * k + 1);
        }
    }
}

/// The capital hexadecimal digit of a value below 16.
pub open spec fn hex_digit_byte(d: u8) -> u8 {
    if d < 10 {
        (0x30 + d) as u8
    } else {
        (0x41 + d - 10) as u8
    }
}

/// The eight digits `RRGGBBAA` of a colour, in capitals.
pub open spec fn rgba_hex_digits(c: Rgba8) -> Seq<u8> {
    seq![
        hex_digit_byte(c.r / 16),
        hex_digit_byte(c.r % 16),
        hex_digit_byte(c.g / 16),
        hex_digit_byte(c.g % 16),
        hex_digit_byte(c.b / 16),
        hex_digit_byte(c.b % 16),
        hex_digit_byte(c.a / 16),
        hex_digit_byte(c.a % 16),
    ]
}

/// The two digits of a byte read back as that byte.
proof fn lemma_byte_digits_read_back(v: u8)
    ensures
        hex_pair_value(hex_digit_byte(v / 16), hex_digit_byte(v % 16)) == Some(v),
{
    assert(hex_digit_value(hex_digit_byte(v / 16)) == Some((v / 16) as u8));
    assert(hex_digit_value(hex_digit_byte(v % 16)) == Some((v % 16) as u8));
}

/// Every colour can be written: its eight digits parse back to it.
pub proof fn lemma_every_color_has_digits(c: Rgba8)
    ensures
        spec_parse_hex_digits(rgba_hex_digits(c)) == Ok::<Rgba8, HexColorError>(c),
{
    lemma_byte_digits_read_back(c.r);
    lemma_byte_digits_read_back(c.g);
    lemma_byte_digits_read_back(c.b);
    lemma_byte_digits_read_back(c.a);
}

/// Whether every character of `s` is white space.
pub open spec fn all_white_space(s: Seq<char>) -> bool {
    forall|i: int| 0 <= i < s.len() ==> is_unicode_white_space(#[trigger] s[i])
}

/// Leading white space before `x` is dropped with the rest.
proof fn lemma_trim_start_skips_white_prefix(p: Seq<char>, x: Seq<char>)
    requires
        all_white_space(p),
    ensures
        trim_start_white_space(p + x) == trim_start_white_space(x),
    decreases p.len(),
{
    if p.len() > 0 {
        assert((p + x)[0] == p[0]);
        assert((p + x).drop_first() =~= p.drop_first() + x);
        lemma_trim_start_skips_white_prefix(p.drop_first(), x);
    } else {
        assert(p + x =~= x);
    }
}

/// Trailing white space after `x` is dropped with the rest.
proof fn lemma_trim_end_skips_white_suffix(x: Seq<char>, q: Seq<char>)
    requires
        all_white_space(q),
    ensures
        trim_end_white_space(x + q) == trim_end_white_space(x),
    decreases q.len(),
{
    if q.len() > 0 {
        assert((x + q).last() == q.last());
        assert((x + q).drop_last() =~= x + q.drop_last());
        lemma_trim_end_skips_white_suffix(x, q.drop_last());
    } else {
        assert(x + q =~= x);
    }
}

/// A string of white space trims to nothing.
proof fn lemma_white_space_trims_to_nothing(q: Seq<char>)
    requires
        all_white_space(q),
    ensures
        trim_start_white_space(q) =~= Seq::<char>::empty(),
    decreases q.len(),
{
    if q.len() > 0 {
        lemma_white_space_trims_to_nothing(q.drop_first());
    }
}

/// White space after `t` does not change `t` trimmed.
proof fn lemma_trim_ignores_white_suffix(t: Seq<char>, q: Seq<char>)
    requires
        all_white_space(q),
    ensures
        trim_white_space(t + q) == trim_white_space(t),
    decreases t.len(),
{
    if t.len() == 0 {
        assert(t + q =~= q);
        lemma_white_space_trims_to_nothing(q);
    } else {
        assert((t + q)[0] == t[0]);
        if is_unicode_white_space(t[0]) {
            assert((t + q).drop_first() =~= t.drop_first() + q);
            lemma_trim_ignores_white_suffix(t.drop_first(), q);
        } else {
            lemma_trim_end_skips_white_suffix(t, q);
        }
    }
}

/// White space around a colour is ignored.
pub proof fn lemma_outer_white_space_is_ignored(pre: Seq<char>, t: Seq<char>, post: Seq<char>)
    requires
        all_white_space(pre),
        all_white_space(post),
    ensures
        color_digits(pre + t + post) == color_digits(t),
        spec_parse_hex_color(pre + t + post) == spec_parse_hex_color(t),
{
    assert(pre + t + post =~= pre + (t + post));
    lemma_trim_start_skips_white_prefix(pre, t + post);
    lemma_trim_ignores_white_suffix(t, post);
}

/// Whether `t` neither starts nor ends with white space.
pub open spec fn has_no_outer_white_space(t: Seq<char>) -> bool {
    t.len() == 0 || (!is_unicode_white_space(t[0]) && !is_unicode_white_space(t.last()))
}

/// The first byte of the UTF-8 encoding of a character other than `#` is not
/// the byte of `#`.
proof fn lemma_first_byte_is_not_hash(c: char)
    requires
        c != '#',
    ensures
        encode_scalar(c as u32)[0] != HASH,
{
    let v = c as u32;
    vstd::utf8::char_is_scalar(c);
    if has_width_1_encoding(v) {
        assert(v <= 0x7F ==> v & 0x7F == v) by (bit_vector);
        if v == 0x23 {
            vstd::utf8::char_u32_cast(c, v);
            vstd::utf8::char_u32_cast('#', 0x23u32);
        }
    } else if has_width_2_encoding(v) {
        let y = ((v >> 6) & 0x1F) as u8;
        assert(0xC0u8 | y >= 0xC0u8) by (bit_vector);
    } else if has_width_3_encoding(v) {
        let y = ((v >> 12) & 0x0F) as u8;
        assert(0xE0u8 | y >= 0xE0u8) by (bit_vector);
    } else {
        let y = ((v >> 18) & 0x7) as u8;
        assert(0xF0u8 | y >= 0xF0u8) by (bit_vector);
    }
}

/// A leading `#` is optional: a colour written with one reads as the same
/// colour written without.
pub proof fn lemma_hash_is_optional(t: Seq<char>)
    requires
        has_no_outer_white_space(t),
        t.len() == 0 || t[0] != '#',
    ensures
        color_digits(seq!['#'] + t) == color_digits(t),
        spec_parse_hex_color(seq!['#'] + t) == spec_parse_hex_color(t),
{
    let s = seq!['#'] + t;
    assert(s[0] == '#');
    assert(s.drop_first() =~= t);
    assert(('#' as u32) == 0x23u32);
    assert(trim_start_white_space(s) == s);
    if t.len() > 0 {
        assert(s.last() == t.last());
    }
    assert(trim_end_white_space(s) == s);
    assert(trim_white_space(t) == t);
    assert(0x23u32 & 0x7Fu32 == 0x23u32) by (bit_vector);
    assert(encode_scalar(0x23u32) =~= seq![HASH]);
    assert(encode_utf8(s) == encode_scalar(0x23u32) + encode_utf8(t));
    assert((seq![HASH] + encode_utf8(t)).drop_first() =~= encode_utf8(t));
    if t.len() > 0 {
        lemma_first_byte_is_not_hash(t[0]);
        assert(encode_utf8(t)[0] == encode_scalar(t[0] as u32)[0]);
    }
}

} // verus!
