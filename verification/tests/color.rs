use tvibe::color::Color;
use tvibe::error::EngineError;

#[test]
fn hex_round_trip_lowercase() {
    let c = Color::from_hex_str("#AbCdEf").unwrap();
    assert_eq!(c.to_css(false), "#abcdef");
}

#[test]
fn hex_round_trip_plain() {
    let c = Color::from_hex_str("1a2b3c").unwrap();
    assert_eq!(c.to_css(false), "#1a2b3c");
}

#[test]
fn hex_eight_digits_carries_alpha() {
    let c = Color::from_hex_str("#11223344").unwrap();
    assert_eq!(c.alpha, 0x44 * 1000);
    assert_eq!(c.to_css(true), "#11223344");
    assert_eq!(c.to_css(false), "#112233");
}

#[test]
fn hex_wrong_length_is_malformed() {
    assert_eq!(Color::from_hex_str("#12345"), Err(EngineError::MalformedColor));
    assert_eq!(Color::from_hex_str("#1234567"), Err(EngineError::MalformedColor));
    assert_eq!(Color::from_hex_str(""), Err(EngineError::MalformedColor));
}

#[test]
fn hex_bad_digit_is_malformed() {
    assert_eq!(Color::from_hex_str("#zzzzzz"), Err(EngineError::MalformedColor));
    assert_eq!(Color::from_hex_str("#12g45f"), Err(EngineError::MalformedColor));
}

#[test]
fn to_hex_packs_bytes() {
    let c = Color::from_hex_str("#ff8000").unwrap();
    assert_eq!(c.to_hex(false), 0xff8000);
    assert_eq!(c.to_hex(true), 0xff8000ff);
}

#[test]
fn from_rgba_scales_channels() {
    let c = Color::from_rgba(255, 128, 0, 255000);
    assert_eq!(c.red, 255000);
    assert_eq!(c.green, 128000);
    assert_eq!(c.blue, 0);
    assert_eq!(c.to_css(false), "#ff8000");
}

#[test]
fn new_clamps_channels() {
    let c = Color::new(-5, 300000, 1, 999999);
    assert_eq!(c.red, 0);
    assert_eq!(c.green, 255000);
    assert_eq!(c.blue, 1);
    assert_eq!(c.alpha, 255000);
}

#[test]
fn shade_zero_is_identity() {
    let c = Color::from_hex_str("#4d9a2b").unwrap();
    assert_eq!(c.shade(0), c);
}

#[test]
fn shade_whole_fraction_hits_the_extremes() {
    let c = Color::from_hex_str("#4d9a2b").unwrap();
    let white = c.shade(1000);
    assert_eq!(white.to_css(false), "#ffffff");
    assert_eq!(white.alpha, c.alpha);
    let black = c.shade(-1000);
    assert_eq!(black.to_css(false), "#000000");
    assert_eq!(black.alpha, c.alpha);
}

#[test]
fn shade_interpolates_toward_white() {
    let black = Color::from_hex_str("#000000").unwrap();
    assert_eq!(black.shade(150).to_css(false), "#262626");
}

#[test]
fn blend_zero_keeps_self() {
    let a = Color::from_hex_str("#11223344").unwrap();
    let b = Color::from_hex_str("#ffeedd").unwrap();
    assert_eq!(a.blend(&b, 0), a);
}

#[test]
fn blend_whole_fraction_takes_other_rgb_and_keeps_alpha() {
    let a = Color::from_hex_str("#11223344").unwrap();
    let b = Color::from_hex_str("#ffeedd").unwrap();
    let r = a.blend(&b, 1000);
    assert_eq!(r.red, b.red);
    assert_eq!(r.green, b.green);
    assert_eq!(r.blue, b.blue);
    assert_eq!(r.alpha, a.alpha);
}

#[test]
fn blend_halfway_between_black_and_white() {
    let black = Color::from_hex_str("#000000").unwrap();
    let white = Color::from_hex_str("#ffffff").unwrap();
    assert_eq!(black.blend(&white, 500).to_css(false), "#808080");
}

#[test]
fn blend_extrapolates_beyond_the_pair() {
    let a = Color::from_hex_str("#404040").unwrap();
    let b = Color::from_hex_str("#808080").unwrap();
    // twice the distance from a toward b lands past b
    assert_eq!(a.blend(&b, 2000).to_css(false), "#c0c0c0");
}

#[test]
fn from_hsv_primary_sectors() {
    assert_eq!(Color::from_hsv(0, 100000, 100000, 255000).to_css(false), "#ff0000");
    assert_eq!(Color::from_hsv(120000, 100000, 100000, 255000).to_css(false), "#00ff00");
    assert_eq!(Color::from_hsv(240000, 100000, 100000, 255000).to_css(false), "#0000ff");
}

#[test]
fn from_hsv_wraps_hue() {
    let a = Color::from_hsv(360000 + 120000, 100000, 100000, 255000);
    let b = Color::from_hsv(120000, 100000, 100000, 255000);
    assert_eq!(a, b);
    let c = Color::from_hsv(-240000, 100000, 100000, 255000);
    assert_eq!(c, b);
}

#[test]
fn from_hsv_clamps_saturation_and_value() {
    let a = Color::from_hsv(0, 150000, 150000, 255000);
    let b = Color::from_hsv(0, 100000, 100000, 255000);
    assert_eq!(a, b);
}

#[test]
fn hsv_round_trip_within_tolerance() {
    let c = Color::from_hsv(210000, 50000, 40000, 255000);
    let (h, s, v) = c.to_hsv();
    assert_eq!(v, 40000, "the value channel comes back exactly");
    assert!((h as i64 - 210000).abs() <= 300, "hue {h}");
    assert!((s as i64 - 50000).abs() <= 300, "saturation {s}");
}

#[test]
fn hsv_saturation_round_trips_exactly_at_full_value() {
    for s in [1u32, 7777, 25000, 50000, 99999, 100000] {
        let c = Color::from_hsv(123456, s as i64, 100000, 255000);
        let (_h, s2, v2) = c.to_hsv();
        assert_eq!(s2, s);
        assert_eq!(v2, 100000);
    }
}

#[test]
fn hsv_round_trips_exactly_at_full_saturation_and_value() {
    for h in [0u32, 1, 59999, 60000, 60001, 123456, 179999, 180000, 250000, 300000, 359999] {
        let c = Color::from_hsv(h as i64, 100000, 100000, 255000);
        assert_eq!(c.to_hsv(), (h, 100000, 100000));
    }
    // negative hues wrap into the circle first
    let c = Color::from_hsv(-60000, 100000, 100000, 255000);
    assert_eq!(c.to_hsv(), (300000, 100000, 100000));
}

#[test]
fn to_hsv_of_gray_has_zero_saturation() {
    let c = Color::from_hex_str("#808080").unwrap();
    let (h, s, _v) = c.to_hsv();
    assert_eq!(h, 0);
    assert_eq!(s, 0);
}

#[test]
fn brighten_raises_the_value_channel() {
    let c = Color::from_hex_str("#808080").unwrap();
    let (_h, _s, v) = c.to_hsv();
    let b = c.brighten(10000);
    let (_h2, _s2, v2) = b.to_hsv();
    assert_eq!(v2, v + 10000);
    assert_eq!(b.to_css(false), "#9a9a9a");
}

#[test]
fn brighten_clamps_at_the_top() {
    let c = Color::from_hex_str("#ffffff").unwrap();
    assert_eq!(c.brighten(50000).to_css(false), "#ffffff");
}

#[test]
fn error_descriptions() {
    assert_eq!(EngineError::MalformedColor.describe(), "malformed hex color");
    assert_eq!(EngineError::MissingBaseColor.describe(), "ramp base color not defined");
    assert_eq!(EngineError::MatchNotFound.describe(), "no matching entry");
}
