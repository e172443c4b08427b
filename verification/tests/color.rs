use show::graphics::Color;

#[test]
fn hex_round_trip_with_default_alpha() {
    let c = Color::parse_hex("#4488CC").unwrap();
    assert_eq!(c.to_hex(), "#4488ccff");
    assert_eq!((c.r, c.g, c.b, c.a), (0x44, 0x88, 0xCC, 0xFF));
}

#[test]
fn hex_parses_eight_digits_and_optional_hash() {
    let c = Color::parse_hex("01aBcD7f").unwrap();
    assert_eq!((c.r, c.g, c.b, c.a), (0x01, 0xAB, 0xCD, 0x7F));
    assert_eq!(c.to_hex(), "#01abcd7f");
    let d = Color::hex("#102030");
    assert_eq!((d.r, d.g, d.b, d.a), (0x10, 0x20, 0x30, 0xFF));
}

#[test]
fn hex_rejects_wrong_lengths_and_bad_digits() {
    assert!(Color::parse_hex("").is_none());
    assert!(Color::parse_hex("#").is_none());
    assert!(Color::parse_hex("#4488C").is_none());
    assert!(Color::parse_hex("#4488CCF").is_none());
    assert!(Color::parse_hex("#4488CCFF0").is_none());
    assert!(Color::parse_hex("#4488CG").is_none());
    assert!(Color::parse_hex("zzzzzz").is_none());
}

#[test]
fn named_colors_and_alpha() {
    assert_eq!(Color::white().to_hex(), "#ffffffff");
    assert_eq!(Color::black().to_hex(), "#000000ff");
    assert_eq!(Color::transparent().to_hex(), "#00000000");
    assert_eq!(Color::default(), Color::transparent());
    let c = Color::new(1, 2, 3, 4).with_alpha(200);
    assert_eq!((c.r, c.g, c.b, c.a), (1, 2, 3, 200));
}

#[test]
fn arrays_round_trip() {
    let c = Color::from_array([9, 8, 7, 6]);
    assert_eq!(c.to_array(), [9, 8, 7, 6]);
}

#[test]
fn blend_weighs_by_the_top_alpha_and_keeps_the_bottom_alpha() {
    let bottom = Color::new(100, 200, 0, 123);
    let top = Color::new(200, 0, 100, 255);
    let b = bottom.blend(top);
    assert_eq!((b.r, b.g, b.b, b.a), (200, 0, 100, 123));
    let half = Color::new(200, 0, 100, 128);
    let h = bottom.blend(half);
    assert_eq!(h.r as u32, (128u32 * 200 + 127 * 100) / 255);
    assert_eq!(h.g as u32, (127u32 * 200) / 255);
    assert_eq!(h.b as u32, (128u32 * 100) / 255);
    assert_eq!(h.a, 123);
    let clear = Color::new(5, 5, 5, 0);
    assert_eq!(bottom.blend(clear), Color::new(100, 200, 0, 123));
}
