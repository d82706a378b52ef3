use leafpress::colour_code::{code_panics, parse_hex, ColourError};
use leafpress::theme::{
    codes_readable_check, get_theme, iter_themes, parse_base16, CustomPalette, Palette, Rgb, Scheme, SchemePalette,
    StaticPalette,
};

fn rgb(r: u8, g: u8, b: u8) -> Rgb {
    Rgb { r, g, b }
}

fn ramp() -> [Rgb; 16] {
    let mut a = [rgb(0, 0, 0); 16];
    for (i, c) in a.iter_mut().enumerate() {
        *c = rgb(i as u8, (i * 2) as u8, (i * 3) as u8);
    }
    a
}

#[test]
fn parse_hex_plain_and_hash() {
    assert_eq!(parse_hex("1a2b3c").unwrap(), rgb(0x1a, 0x2b, 0x3c));
    assert_eq!(parse_hex("#FFfF00").unwrap(), rgb(255, 255, 0));
    assert_eq!(parse_hex("  #000000\n").unwrap(), rgb(0, 0, 0));
    assert_eq!(parse_hex("###abcdef").unwrap(), rgb(0xab, 0xcd, 0xef));
    assert_eq!(parse_hex("\u{3000}#102030\t").unwrap(), rgb(0x10, 0x20, 0x30));
}

#[test]
fn parse_hex_plus_sign_pairs() {
    assert_eq!(parse_hex("+f+f+f").unwrap(), rgb(15, 15, 15));
    assert_eq!(parse_hex("+1a0+0").unwrap(), rgb(1, 0xa0, 0));
}

#[test]
fn parse_hex_wrong_length() {
    match parse_hex("#abc") {
        Err(ColourError::InvalidLength(s)) => assert_eq!(s, "abc"),
        other => panic!("unexpected {:?}", other),
    }
    match parse_hex("  # 1234567 ") {
        Err(ColourError::InvalidLength(s)) => assert_eq!(s, " 1234567"),
        other => panic!("unexpected {:?}", other),
    }
    match parse_hex("") {
        Err(ColourError::InvalidLength(s)) => assert_eq!(s, ""),
        other => panic!("unexpected {:?}", other),
    }
}

#[test]
fn parse_hex_bad_digits() {
    assert!(matches!(parse_hex("zz0000"), Err(ColourError::InvalidDigit)));
    assert!(matches!(parse_hex("00zz00"), Err(ColourError::InvalidDigit)));
    assert!(matches!(parse_hex("0000-1"), Err(ColourError::InvalidDigit)));
    assert!(matches!(parse_hex("++0000"), Err(ColourError::InvalidDigit)));
    // two-byte characters that end on a piece boundary are no digits
    assert!(matches!(parse_hex("éé00"), Err(ColourError::InvalidDigit)));
    assert!(matches!(parse_hex("00éé"), Err(ColourError::InvalidDigit)));
}

#[test]
fn parse_base16_first_error_wins() {
    let good: Vec<String> = (0..16).map(|i| format!("#{:02x}{:02x}{:02x}", i, i * 2, i * 3)).collect();
    let refs: Vec<&str> = good.iter().map(|s| s.as_str()).collect();
    assert_eq!(parse_base16(&refs).unwrap(), ramp());
    let mut bad = refs.clone();
    bad[3] = "#12";
    bad[5] = "qqqqqq";
    match parse_base16(&bad) {
        Err(ColourError::InvalidLength(s)) => assert_eq!(s, "12"),
        other => panic!("unexpected {:?}", other.map(|_| ())),
    }
}

fn scheme(codes: [&str; 16]) -> Scheme {
    let s = |i: usize| codes[i].to_string();
    Scheme {
        system: "base16".to_string(),
        name: "Test".to_string(),
        author: "Someone".to_string(),
        variant: "dark".to_string(),
        palette: SchemePalette {
            base00: s(0), base01: s(1), base02: s(2), base03: s(3),
            base04: s(4), base05: s(5), base06: s(6), base07: s(7),
            base08: s(8), base09: s(9), base0a: s(10), base0b: s(11),
            base0c: s(12), base0d: s(13), base0e: s(14), base0f: s(15),
            base10: "x".to_string(), base11: "x".to_string(), base12: "x".to_string(),
            base13: "x".to_string(), base14: "x".to_string(), base15: "x".to_string(),
            base16: "x".to_string(), base17: "x".to_string(),
        },
    }
}

#[test]
fn custom_palette_from_scheme() {
    let codes = [
        "#000000", "#010203", "#020406", "#030609", "#04080c", "#050a0f", "#060c12", "#070e15",
        "#081018", "#09121b", "#0a141e", "#0b1621", "#0c1824", "#0d1a27", "#0e1c2a", "#0f1e2d",
    ];
    let p = CustomPalette::from_scheme(&scheme(codes)).unwrap();
    assert_eq!(p.colours(), ramp().to_vec());
    assert_eq!(*p.background(), rgb(0, 0, 0));
    assert_eq!(*p.colour(15), rgb(15, 30, 45));
    assert_eq!(p.name(), Some("Test"));
    assert_eq!(p.author(), Some("Someone"));
    let mut bad = codes;
    bad[15] = "#00000g";
    assert!(matches!(CustomPalette::from_scheme(&scheme(bad)), Err(ColourError::InvalidDigit)));
}

#[test]
fn static_palette_accessors() {
    let p = StaticPalette::new(ramp(), Some("Ramp"), None);
    assert_eq!(*p.colour(3), rgb(3, 6, 9));
    assert_eq!(*p.background(), rgb(0, 0, 0));
    assert_eq!(p.name(), Some("Ramp"));
    assert_eq!(p.author(), None);
    assert_eq!(p.colours().len(), 16);
    let q = CustomPalette::new(ramp(), None, Some("Me".to_string()));
    assert_eq!(q.name(), None);
    assert_eq!(q.author(), Some("Me"));
}

#[test]
fn theme_table_lookup() {
    let a = StaticPalette::new(ramp(), Some("A"), None);
    let mut dark = ramp();
    dark[0] = rgb(9, 9, 9);
    let b = StaticPalette::new(dark, Some("B"), None);
    let c = StaticPalette::new(ramp(), Some("C"), None);
    let table = [("one/one", a), ("two/two", b), ("two/two", c)];
    assert_eq!(get_theme(&table, "two/two").unwrap().name(), Some("B"));
    assert_eq!(*get_theme(&table, "two/two").unwrap().background(), rgb(9, 9, 9));
    assert!(get_theme(&table, "three").is_none());
    let listed = iter_themes(&table);
    assert_eq!(listed.len(), 3);
    assert_eq!(listed[0].0, "one/one");
    assert_eq!(listed[2].1.name(), Some("C"));
}

#[test]
fn slicing_inside_a_character_is_detected() {
    assert!(code_panics("0\u{e9}000"));
    assert!(code_panics("\u{fb00}000"));
    assert!(code_panics("000\u{e9}0"));
    assert!(!code_panics("00\u{e9}00"));
    assert!(!code_panics("0000\u{e9}"));
    assert!(!code_panics("#abc"));
    assert!(!code_panics("#a1b2c3"));
    assert!(matches!(parse_hex("00\u{e9}00"), Err(ColourError::InvalidDigit)));
    assert!(matches!(parse_hex("0000\u{e9}"), Err(ColourError::InvalidDigit)));
}

#[test]
fn readable_codes_stop_at_first_failure() {
    let mut codes = ["#000000"; 16];
    assert!(codes_readable_check(&codes));
    codes[4] = "0\u{e9}000";
    assert!(!codes_readable_check(&codes));
    codes[2] = "nothex";
    assert!(codes_readable_check(&codes));
}

#[test]
fn colour_error_messages() {
    assert_eq!(ColourError::InvalidLength("abc".to_string()).message("invalid colour"), "invalid colour: abc");
    assert_eq!(ColourError::InvalidDigit.message("invalid colour"), "invalid digit found in string");
}

#[test]
fn codes_in_every_form_read_back() {
    for c in [rgb(0, 0, 0), rgb(255, 255, 255), rgb(0x1a, 0xb2, 0x09), rgb(0xf0, 0x0f, 0x80)] {
        for code in [
            format!("#{:02x}{:02x}{:02x}", c.r, c.g, c.b),
            format!("#{:02X}{:02X}{:02X}", c.r, c.g, c.b),
            format!("{:02x}{:02x}{:02x}", c.r, c.g, c.b),
            format!("{:02X}{:02X}{:02X}", c.r, c.g, c.b),
        ] {
            assert!(!code_panics(&code));
            assert_eq!(parse_hex(&code).unwrap(), c);
        }
    }
}
