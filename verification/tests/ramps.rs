use tvibe::color::Color;
use tvibe::config::{BackgroundShadeConfig, SelectionShadeConfig};
use tvibe::error::EngineError;
use tvibe::ramp::{Background, Foreground, Selection};

fn bg_slots(r: &Background) -> Vec<String> {
    (0..5usize).map(|i| r.index(i).unwrap().clone()).collect()
}

#[test]
fn empty_background_fills_with_default_anchor() {
    let mut r = Background::Empty;
    r.prepare(&None).unwrap();
    assert!(r.is_filled());
    assert_eq!(r.index(1).unwrap(), "#000000");
}

#[test]
fn empty_background_fills_with_default_anchor_under_any_offsets() {
    let mut r = Background::Empty;
    r.prepare(&Some(BackgroundShadeConfig([9000, -2000, 5000, 700]))).unwrap();
    assert!(r.is_filled());
    assert_eq!(r.index(1).unwrap(), "#000000");
}

#[test]
fn single_anchor_grows_outward() {
    let mut r = Background::Single("#404040".into());
    r.prepare(&None).unwrap();
    let base = Color::from_hex_str("#404040").unwrap();
    assert_eq!(r.index(0).unwrap(), &base.brighten(-4000).to_css(false));
    assert_eq!(r.index(1).unwrap(), "#404040");
    assert_eq!(r.index(2).unwrap(), &base.brighten(6000).to_css(false));
    assert_eq!(r.index(3).unwrap(), &base.brighten(12000).to_css(false));
    assert_eq!(r.index(4).unwrap(), &base.brighten(23000).to_css(false));
}

#[test]
fn prepare_is_idempotent_from_single() {
    let mut r = Background::Single("#335577".into());
    r.prepare(&None).unwrap();
    let first = bg_slots(&r);
    r.prepare(&None).unwrap();
    assert_eq!(bg_slots(&r), first);
}

#[test]
fn prepare_is_idempotent_from_sparse() {
    let mut r = Background::Filled(vec![
        "".into(),
        "".into(),
        "#446688".into(),
        "".into(),
        "".into(),
    ]);
    r.prepare(&None).unwrap();
    let first = bg_slots(&r);
    r.prepare(&None).unwrap();
    assert_eq!(bg_slots(&r), first);
}

#[test]
fn slot_three_reference_derives_the_anchor_by_inverse_offset() {
    let mut r = Background::Filled(vec![
        "".into(),
        "".into(),
        "".into(),
        "#404040".into(),
        "".into(),
    ]);
    r.prepare(&None).unwrap();
    let reference = Color::from_hex_str("#404040").unwrap();
    let base = reference.brighten(-12000);
    assert_eq!(r.index(3).unwrap(), "#404040", "the supplied slot is untouched");
    assert_eq!(r.index(1).unwrap(), &base.to_css(false));
    assert_eq!(r.index(0).unwrap(), &base.brighten(-4000).to_css(false));
    assert_eq!(r.index(2).unwrap(), &base.brighten(6000).to_css(false));
    assert_eq!(r.index(4).unwrap(), &base.brighten(23000).to_css(false));
}

#[test]
fn supplied_slots_survive_completion() {
    let mut r = Background::Filled(vec![
        "#010101".into(),
        "#020202".into(),
        "".into(),
        "#030303".into(),
        "".into(),
    ]);
    r.prepare(&None).unwrap();
    assert_eq!(r.index(0).unwrap(), "#010101");
    assert_eq!(r.index(1).unwrap(), "#020202");
    assert_eq!(r.index(3).unwrap(), "#030303");
}

#[test]
fn all_empty_slots_have_no_anchor() {
    let mut r = Background::Filled(vec!["".into(); 5]);
    assert_eq!(r.prepare(&None), Err(EngineError::MissingBaseColor));
}

#[test]
fn malformed_anchor_fails_prepare() {
    let mut r = Background::Single("#nothex".into());
    assert_eq!(r.prepare(&None), Err(EngineError::MalformedColor));
}

#[test]
fn foreground_grows_from_white_by_default() {
    let mut r = Foreground::Empty;
    r.prepare(&None).unwrap();
    assert!(r.is_filled());
    assert_eq!(r.index(1).unwrap(), "#ffffff");
    let base = Color::from_hex_str("#ffffff").unwrap();
    assert_eq!(r.index(2).unwrap(), &base.brighten(-23000).to_css(false));
}

#[test]
fn selection_grows_its_second_slot() {
    let mut r = Selection::Single("#2a2a2a".into());
    r.prepare(&None).unwrap();
    let base = Color::from_hex_str("#2a2a2a").unwrap();
    assert_eq!(r.index(0).unwrap(), "#2a2a2a");
    assert_eq!(r.index(1).unwrap(), &base.brighten(16000).to_css(false));
}

#[test]
fn filled_selection_is_left_untouched() {
    let mut r = Selection::Filled(vec!["#111111".into(), "#222222".into()]);
    r.prepare(&Some(SelectionShadeConfig([40000]))).unwrap();
    assert_eq!(r.index(0).unwrap(), "#111111");
    assert_eq!(r.index(1).unwrap(), "#222222");
}

#[test]
fn ramp_validation_rejects_bad_slots() {
    let r = Background::Filled(vec![
        "#010101".into(),
        "#02".into(),
        "#030303".into(),
        "#040404".into(),
        "#050505".into(),
    ]);
    assert_eq!(r.validation(), Err(EngineError::MalformedColor));
    let ok = Background::Single("#010101".into());
    assert_eq!(ok.validation(), Ok(()));
}
