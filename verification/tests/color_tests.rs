use opencrosshair::color::{
    hex_digit, parse_hex_color, parse_hex_digits, parse_hex_pair, Channel, HexColorError, Rgba8,
};

fn rgba(r: u8, g: u8, b: u8, a: u8) -> Rgba8 {
    Rgba8 { r, g, b, a }
}

#[test]
fn red_without_hash() {
    assert_eq!(parse_hex_color("FF0000"), Ok(rgba(255, 0, 0, 255)));
}

#[test]
fn red_with_hash() {
    assert_eq!(parse_hex_color("#FF0000"), Ok(rgba(255, 0, 0, 255)));
}

#[test]
fn red_with_alpha() {
    assert_eq!(parse_hex_color("#FF0000FF"), Ok(rgba(255, 0, 0, 255)));
    assert_eq!(parse_hex_color("#11223344"), Ok(rgba(0x11, 0x22, 0x33, 0x44)));
}

#[test]
fn short_form_doubles_each_digit() {
    assert_eq!(parse_hex_color("#f0a"), Ok(rgba(0xff, 0x00, 0xaa, 255)));
    assert_eq!(parse_hex_color("f0a"), parse_hex_color("ff00aa"));
}

#[test]
fn case_is_ignored() {
    assert_eq!(parse_hex_color("#aBcDeF"), Ok(rgba(0xab, 0xcd, 0xef, 255)));
    assert_eq!(parse_hex_color("abcdef"), parse_hex_color("ABCDEF"));
}

#[test]
fn six_digits_are_opaque() {
    assert_eq!(parse_hex_color("123456"), parse_hex_color("123456ff"));
}

#[test]
fn surrounding_white_space_is_trimmed() {
    assert_eq!(parse_hex_color("  #00ff00\n"), Ok(rgba(0, 255, 0, 255)));
    assert_eq!(parse_hex_color("\t0f0 "), Ok(rgba(0, 255, 0, 255)));
    assert_eq!(parse_hex_color("\u{3000}0f0\u{a0}"), Ok(rgba(0, 255, 0, 255)));
}

#[test]
fn inner_white_space_is_kept() {
    assert_eq!(parse_hex_color("# 0f0"), Err(HexColorError::InvalidFormat));
}

#[test]
fn only_one_hash_is_stripped() {
    assert_eq!(parse_hex_color("##0f0"), Err(HexColorError::InvalidFormat));
    assert_eq!(
        parse_hex_color("##0f00f"),
        Err(HexColorError::InvalidComponent(Channel::Red))
    );
}

#[test]
fn wrong_lengths_are_refused() {
    for s in ["", "#", "1", "12", "1234", "12345", "1234567", "123456789"] {
        assert_eq!(parse_hex_color(s), Err(HexColorError::InvalidFormat), "{}", s);
    }
}

#[test]
fn each_channel_reports_its_error() {
    assert_eq!(parse_hex_color("g00"), Err(HexColorError::InvalidComponent(Channel::Red)));
    assert_eq!(parse_hex_color("0g0"), Err(HexColorError::InvalidComponent(Channel::Green)));
    assert_eq!(parse_hex_color("00g"), Err(HexColorError::InvalidComponent(Channel::Blue)));
    assert_eq!(
        parse_hex_color("000000zz"),
        Err(HexColorError::InvalidComponent(Channel::Alpha))
    );
    assert_eq!(
        parse_hex_color("zz00zz00"),
        Err(HexColorError::InvalidComponent(Channel::Red))
    );
}

#[test]
fn components_are_hex_digits_only() {
    assert_eq!(parse_hex_color("+F0000"), Err(HexColorError::InvalidComponent(Channel::Red)));
    assert_eq!(parse_hex_color("00+F00"), Err(HexColorError::InvalidComponent(Channel::Green)));
    assert_eq!(parse_hex_color("+++"), Err(HexColorError::InvalidComponent(Channel::Red)));
    assert_eq!(parse_hex_color("-A0000"), Err(HexColorError::InvalidComponent(Channel::Red)));
    assert_eq!(parse_hex_color("0x0000"), Err(HexColorError::InvalidComponent(Channel::Red)));
    assert_eq!(parse_hex_pair(b'+', b'f'), None);
    assert_eq!(parse_hex_pair(b'f', b'F'), Some(255));
    assert_eq!(parse_hex_pair(b'0', b'9'), Some(9));
    assert_eq!(parse_hex_pair(b'a', b'g'), None);
    assert_eq!(hex_digit(b'G'), None);
    assert_eq!(hex_digit(b'e'), Some(14));
}

#[test]
fn non_ascii_text_gives_the_channel_error() {
    // "é" takes two bytes: "éa" is three bytes long, "aé123" six.
    assert_eq!(parse_hex_color("éa"), Err(HexColorError::InvalidComponent(Channel::Red)));
    assert_eq!(parse_hex_color("aé"), Err(HexColorError::InvalidComponent(Channel::Green)));
    assert_eq!(parse_hex_color("aé123"), Err(HexColorError::InvalidComponent(Channel::Red)));
    assert_eq!(parse_hex_color("#00aé1"), Err(HexColorError::InvalidComponent(Channel::Green)));
    assert_eq!(parse_hex_color("00é00"), Err(HexColorError::InvalidComponent(Channel::Green)));
    assert_eq!(parse_hex_color("0000é"), Err(HexColorError::InvalidComponent(Channel::Blue)));
    assert_eq!(parse_hex_color("€"), Err(HexColorError::InvalidComponent(Channel::Red)));
    assert_eq!(parse_hex_color("ééé"), Err(HexColorError::InvalidComponent(Channel::Red)));
}

#[test]
fn digits_parse_without_trimming() {
    assert_eq!(parse_hex_digits(b"0a0b0c"), Ok(rgba(10, 11, 12, 255)));
    assert_eq!(parse_hex_digits(b" 0a0b0"), Err(HexColorError::InvalidComponent(Channel::Red)));
    assert_eq!(parse_hex_digits(b"#0a0b0c"), Err(HexColorError::InvalidFormat));
}

#[test]
fn error_messages() {
    assert_eq!(
        HexColorError::InvalidComponent(Channel::Red).message(),
        "Invalid red component"
    );
    assert_eq!(
        HexColorError::InvalidComponent(Channel::Green).message(),
        "Invalid green component"
    );
    assert_eq!(
        HexColorError::InvalidComponent(Channel::Blue).message(),
        "Invalid blue component"
    );
    assert_eq!(
        HexColorError::InvalidComponent(Channel::Alpha).message(),
        "Invalid alpha component"
    );
    assert_eq!(
        HexColorError::InvalidFormat.message(),
        "Color must be in format RGB, RRGGBB, or RRGGBBAA"
    );
}

#[test]
fn every_color_reads_back_from_its_digits() {
    for v in [0u8, 1, 9, 10, 15, 16, 127, 128, 200, 255] {
        let s = format!("{:02X}{:02x}{:02X}{:02x}", v, 255 - v, v / 3, v / 7);
        assert_eq!(parse_hex_color(&s), Ok(rgba(v, 255 - v, v / 3, v / 7)));
    }
}
