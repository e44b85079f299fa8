use tvibe::config::ThemeConfig;
use tvibe::error::EngineError;
use tvibe::ramp::{Background, Foreground, Selection};
use tvibe::term::{new_term_colors, TermColors};
use tvibe::theme::{DiffColors, Theme, ThemeColors};

#[test]
fn term_shade_brightens_every_channel() {
    let t = TermColors::default();
    let bright = t.shade(Some(150)).unwrap();
    assert_eq!(bright.black, "#262626");
    assert_eq!(bright.red, "#ff2626");
    assert_eq!(bright.white, "#ffffff");
}

#[test]
fn term_shade_darkens_with_a_negative_factor() {
    let t = TermColors::default();
    let dim = t.shade(Some(-150)).unwrap();
    assert_eq!(dim.black, "#000000");
    assert_eq!(dim.red, "#d90000");
}

#[test]
fn term_shade_derives_missing_orange_from_yellow() {
    let t = new_term_colors(
        "#000000", "#ff0000", "#00ff00", "#ffff00", "#0000ff", "#ff00ff", "#00ffff", "#ffffff",
        "", "",
    );
    assert!(t.orange.is_none());
    assert!(t.pink.is_none());
    let s = t.shade(Some(0)).unwrap();
    assert_eq!(s.orange.as_deref(), Some("#ffff00"));
    assert_eq!(s.pink.as_deref(), Some("#ff0000"));
}

#[test]
fn term_validation_flags_any_bad_channel() {
    let mut t = TermColors::default();
    assert_eq!(t.validation(), Ok(()));
    t.cyan = "#12345".into();
    assert_eq!(t.validation(), Err(EngineError::MalformedColor));
}

#[test]
fn prepare_derives_every_absent_field() {
    let mut colors = ThemeColors::default();
    colors.prepare(&ThemeConfig::default()).unwrap();
    assert!(colors.background.is_filled());
    assert!(colors.foreground.is_filled());
    assert!(colors.selection.is_filled());
    // background anchor is black, foreground anchor white
    assert_eq!(colors.background.index(1).unwrap(), "#000000");
    assert_eq!(colors.foreground.index(1).unwrap(), "#ffffff");
    // comment: background blended 0.4 of the way to the foreground
    assert_eq!(colors.comment.as_deref(), Some("#666666"));
    // variable is the foreground anchor, the status line the lowest background slot
    assert_eq!(colors.variable.as_deref(), Some("#ffffff"));
    assert_eq!(colors.status_line.as_deref(), Some("#000000"));
    // diff colors: background blended toward green/red/blue/cyan
    let diff = colors.diff.as_ref().unwrap();
    assert_eq!(diff.add.as_deref(), Some("#003300"));
    assert_eq!(diff.delete.as_deref(), Some("#330000"));
    assert_eq!(diff.change.as_deref(), Some("#000033"));
    assert_eq!(diff.text.as_deref(), Some("#004d4d"));
    // bright and dim tiers shaded from the base
    assert_eq!(colors.bright.as_ref().unwrap().black, "#262626");
    assert_eq!(colors.dim.as_ref().unwrap().red, "#d90000");
}

#[test]
fn prepare_never_overwrites_present_fields() {
    let mut colors = ThemeColors::default();
    colors.comment = Some("#123456".into());
    colors.variable = Some("#234567".into());
    colors.status_line = Some("#345678".into());
    colors.bright = Some(TermColors::default());
    colors.diff = Some(DiffColors {
        add: Some("#456789".into()),
        delete: None,
        change: None,
        text: None,
    });
    colors.background = Background::Filled(vec![
        "#010101".into(),
        "#020202".into(),
        "".into(),
        "".into(),
        "".into(),
    ]);
    colors.prepare(&ThemeConfig::default()).unwrap();
    assert_eq!(colors.comment.as_deref(), Some("#123456"));
    assert_eq!(colors.variable.as_deref(), Some("#234567"));
    assert_eq!(colors.status_line.as_deref(), Some("#345678"));
    assert_eq!(colors.bright.as_ref().unwrap().black, "#000000");
    let diff = colors.diff.as_ref().unwrap();
    assert_eq!(diff.add.as_deref(), Some("#456789"));
    assert!(diff.delete.is_some(), "the absent diff fields are still derived");
    assert_eq!(colors.background.index(0).unwrap(), "#010101");
    assert_eq!(colors.background.index(1).unwrap(), "#020202");
    // dim was absent, so it was derived
    assert!(colors.dim.is_some());
}

#[test]
fn prepare_fails_on_a_malformed_base_channel() {
    let mut colors = ThemeColors::default();
    colors.base.green = "#badhex".into();
    assert_eq!(colors.prepare(&ThemeConfig::default()), Err(EngineError::MalformedColor));
}

#[test]
fn prepare_fails_without_any_background_slot() {
    let mut colors = ThemeColors::default();
    colors.background = Background::Filled(vec!["".into(); 5]);
    assert_eq!(colors.prepare(&ThemeConfig::default()), Err(EngineError::MissingBaseColor));
}

#[test]
fn colors_validation_reports_the_malformed_field() {
    let mut colors = ThemeColors::default();
    colors.comment = Some("#12345".into());
    assert_eq!(colors.validation(), Err(EngineError::MalformedColor));
}

#[test]
fn colors_validation_reparses_the_variable_field() {
    let mut colors = ThemeColors::default();
    colors.variable = Some("#12345".into());
    assert_eq!(colors.validation(), Err(EngineError::MalformedColor));
    colors.variable = Some("#123456".into());
    assert_eq!(colors.validation(), Ok(()));
}

#[test]
fn theme_validation_reparses_the_variable_field() {
    let mut theme = Theme::default();
    let mut colors = ThemeColors::default();
    colors.variable = Some("#badhex".into());
    theme.colors = Some(colors);
    assert_eq!(theme.validation(), Err(EngineError::MalformedColor));
}

#[test]
fn diff_validation_checks_present_fields_only() {
    let d = DiffColors { add: Some("#001122".into()), delete: None, change: None, text: None };
    assert_eq!(d.validation(), Ok(()));
    let bad = DiffColors { add: Some("#xx1122".into()), delete: None, change: None, text: None };
    assert_eq!(bad.validation(), Err(EngineError::MalformedColor));
}

#[test]
fn theme_prepare_inserts_defaults_and_completes() {
    let mut theme = Theme::default();
    theme.prepare().unwrap();
    assert!(theme.config.is_some());
    let colors = theme.colors.as_ref().unwrap();
    assert!(colors.background.is_filled());
    assert_eq!(colors.comment.as_deref(), Some("#666666"));
}

#[test]
fn theme_validation_flags_a_malformed_stored_color() {
    let mut theme = Theme::default();
    let mut colors = ThemeColors::default();
    colors.comment = Some("#12345".into());
    theme.colors = Some(colors);
    assert_eq!(theme.validation(), Err(EngineError::MalformedColor));
}

#[test]
fn theme_accessors_insert_defaults() {
    let mut theme = Theme::default();
    assert!(!theme.is_light());
    assert_eq!(theme.light, Some(false));
    let colors = theme.get_colors();
    assert_eq!(colors.base.black, "#000000");
    assert!(theme.colors.is_some());
}

#[test]
fn prepared_selection_keeps_user_slots() {
    let mut colors = ThemeColors::default();
    colors.selection = Selection::Filled(vec!["#111111".into(), "#222222".into()]);
    colors.foreground = Foreground::Single("#d0d0d0".into());
    colors.prepare(&ThemeConfig::default()).unwrap();
    assert_eq!(colors.selection.index(0).unwrap(), "#111111");
    assert_eq!(colors.selection.index(1).unwrap(), "#222222");
    assert_eq!(colors.foreground.index(1).unwrap(), "#d0d0d0");
}
