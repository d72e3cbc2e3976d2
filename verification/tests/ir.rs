use chart_renderer::ir::Color;

#[test]
fn parses_hex_colors() {
    assert_eq!(Color::from_hex("#4c78a8"), Some(Color::rgb(0x4c, 0x78, 0xa8)));
    assert_eq!(Color::from_hex("#f0a"), Some(Color::rgb(0xff, 0x00, 0xaa)));
    assert_eq!(
        Color::from_hex("#4c78a880"),
        Some(Color::rgba(0x4c, 0x78, 0xa8, 0x80))
    );
}

#[test]
fn rejects_malformed_hex_without_panicking() {
    for s in ["", "#", "4c78a8", "#xyzxyz", "#12345", "#1234567890"] {
        assert_eq!(Color::from_hex(s), None, "expected None for {s:?}");
    }
}

#[test]
fn hex_digits_may_be_upper_case() {
    assert_eq!(Color::from_hex("#4C78A8"), Some(Color::rgb(0x4c, 0x78, 0xa8)));
    assert_eq!(Color::from_hex("#FFF"), Some(Color::rgb(255, 255, 255)));
}

#[test]
fn a_non_ascii_character_is_not_a_hex_digit() {
    // Three characters but four bytes after the '#'.
    assert_eq!(Color::from_hex("#é0"), None);
    assert_eq!(Color::from_hex("#ab\u{e9}"), None);
}

#[test]
fn white_and_black_are_opaque() {
    assert_eq!(Color::white(), Color::rgba(255, 255, 255, 255));
    assert_eq!(Color::black(), Color::rgba(0, 0, 0, 255));
}
