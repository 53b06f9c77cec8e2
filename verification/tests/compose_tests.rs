use platzhalter::color::Color;
use platzhalter::compose::Border;
use platzhalter::compose::compose_layout;
use platzhalter::compose::watermark_text;
use platzhalter::request::ImageMeta;
use platzhalter::request::build_config;

fn meta(raw: &str, bg: Option<&str>, br: Option<&str>, br_s: Option<u8>) -> ImageMeta {
    ImageMeta { config: build_config(bg, br, br_s), raw_dimensions: raw.to_string() }
}

#[test]
fn default_layout() {
    // A plain 400x300 request: peach background, no border, dark label
    // text (peach is light), watermark present at width 400.
    let m = meta("400x300", None, None, None);
    let l = compose_layout(&m, 400, 300);
    assert_eq!(l.width, 400);
    assert_eq!(l.height, 300);
    assert_eq!(l.background, Color::from_hex("FFD8C2").unwrap());
    assert_eq!(l.border, None);
    assert_eq!(l.label, "400x300");
    assert_eq!(l.text_color, Color::from_hex("111827").unwrap());
    assert!(l.watermark);
}

#[test]
fn explicit_border_thickness_defaults_to_black() {
    // Border thickness 5 with no border color: a visible 5-unit border in
    // default black.
    let m = meta("50x50", None, None, Some(5));
    let l = compose_layout(&m, 50, 50);
    assert_eq!(
        l.border,
        Some(Border { color: Color::from_hex("000000").unwrap(), thickness: 5 })
    );
    assert!(!l.watermark);
}

#[test]
fn border_color_without_thickness_is_not_drawn() {
    let m = meta("50x50", None, Some("f00"), None);
    let l = compose_layout(&m, 50, 50);
    assert_eq!(l.border, None);
}

#[test]
fn explicit_border_color_used_when_thickness_present() {
    let m = meta("50x50", None, Some("f00"), Some(2));
    let l = compose_layout(&m, 50, 50);
    assert_eq!(
        l.border,
        Some(Border { color: Color::from_hex("ff0000").unwrap(), thickness: 2 })
    );
}

#[test]
fn dark_background_gets_light_text() {
    let m = meta("400x300", Some("000"), None, None);
    let l = compose_layout(&m, 400, 300);
    assert_eq!(l.background, Color::from_hex("000000").unwrap());
    assert_eq!(l.text_color, Color::from_hex("F9FAFB").unwrap());
}

#[test]
fn watermark_exactly_at_width_200() {
    let m = meta("200x50", None, None, None);
    assert!(compose_layout(&m, 200, 50).watermark);
    let m = meta("199x50", None, None, None);
    assert!(!compose_layout(&m, 199, 50).watermark);
}

#[test]
fn watermark_label() {
    assert_eq!(watermark_text(), "powered by rsmidt.dev");
}
