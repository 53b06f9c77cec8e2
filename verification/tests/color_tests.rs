use platzhalter::color::Color;
use platzhalter::color::ColorError;
use platzhalter::color::PerceivedLuminance;

#[test]
fn shorthand_equals_full_form() {
    assert_eq!(Color::from_hex("FFF").unwrap(), Color::from_hex("ffffff").unwrap());
    assert_eq!(Color::from_hex("abc").unwrap(), Color::from_hex("aabbcc").unwrap());
    assert_eq!(Color::from_hex("AbC").unwrap(), Color::from_hex("aabbcc").unwrap());
    assert_eq!(Color::from_hex("19f").unwrap(), Color::from_hex("1199ff").unwrap());
}

#[test]
fn case_insensitive_parsing() {
    assert_eq!(Color::from_hex("FFD8C2").unwrap(), Color::from_hex("ffd8c2").unwrap());
    assert_eq!(Color::from_hex("fFd8C2").unwrap(), Color::from_hex("FFD8c2").unwrap());
}

#[test]
fn exact_channels() {
    let c = Color::from_hex("FFD8C2").unwrap();
    assert_eq!(c.r, 255);
    assert_eq!(c.g, 216);
    assert_eq!(c.b, 194);
    let c = Color::from_hex("102a3F").unwrap();
    assert_eq!(c.r, 16);
    assert_eq!(c.g, 42);
    assert_eq!(c.b, 63);
}

#[test]
fn alpha_is_opaque_marker() {
    // The alpha channel is fixed to the marker value 1, deliberately
    // distinct from the conventional maximum 255.
    assert_eq!(Color::from_hex("FFFFFF").unwrap().a, 1);
    assert_eq!(Color::from_hex("000").unwrap().a, 1);
}

#[test]
fn invalid_lengths() {
    assert_eq!(Color::from_hex("f"), Err(ColorError::InvalidLength));
    assert_eq!(Color::from_hex("ff"), Err(ColorError::InvalidLength));
    assert_eq!(Color::from_hex("ffff"), Err(ColorError::InvalidLength));
    assert_eq!(Color::from_hex("fffff"), Err(ColorError::InvalidLength));
    assert_eq!(Color::from_hex("fffffff"), Err(ColorError::InvalidLength));
    assert_eq!(Color::from_hex(""), Err(ColorError::InvalidLength));
}

#[test]
fn invalid_hex_digits() {
    assert_eq!(Color::from_hex("12g"), Err(ColorError::InvalidHex));
    assert_eq!(Color::from_hex("zzz"), Err(ColorError::InvalidHex));
    assert_eq!(Color::from_hex("12345z"), Err(ColorError::InvalidHex));
}

#[test]
fn luminance_extremes() {
    let white = Color::from_hex("FFFFFF").unwrap();
    assert_eq!(white.perceived_luminance(), PerceivedLuminance::Light);
    let black = Color::from_hex("000000").unwrap();
    assert_eq!(black.perceived_luminance(), PerceivedLuminance::Dark);
}

#[test]
fn luminance_of_defaults() {
    // The default peach background is light, so the label is drawn in the
    // near-black text color.
    let peach = Color::from_hex("FFD8C2").unwrap();
    assert_eq!(peach.perceived_luminance(), PerceivedLuminance::Light);
    let navy = Color::from_hex("111827").unwrap();
    assert_eq!(navy.perceived_luminance(), PerceivedLuminance::Dark);
}
