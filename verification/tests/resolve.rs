use tvibe::alacritty::Colors;
use tvibe::collection::{
    dark_name_at, dark_names, light_name_at, light_names, list_names, name_at, rand, rand_dark,
    rand_light, search,
};
use tvibe::config::ThemeConfig;
use tvibe::term::new_term_colors;
use tvibe::theme::ThemeColors;

#[test]
fn exact_match_wins() {
    let (name, light) = search("gruvbox_dark");
    assert_eq!(name, "gruvbox_dark");
    assert!(!light);
}

#[test]
fn exact_match_is_case_insensitive() {
    let (name, light) = search("DAYFOX");
    assert_eq!(name, "dayfox");
    assert!(light);
}

#[test]
fn close_query_finds_a_gruvbox_theme() {
    let (name, light) = search("grovbox_dark");
    assert!(name.contains("gruvbox"), "got {name}");
    assert!(!light);
    let (name, _light) = search("gruvbox_drak");
    assert_eq!(name, "gruvbox_dark");
}

#[test]
fn substring_ties_prefer_the_dark_universe() {
    // several names contain "fox" in both universes; the first dark one wins
    let (name, light) = search("fox");
    assert_eq!(name, "duskfox");
    assert!(!light);
}

#[test]
fn light_exact_match_beats_the_dark_best() {
    let (name, light) = search("paper");
    assert_eq!(name, "paper");
    assert!(light);
}

#[test]
fn the_universes_have_the_catalog_sizes() {
    assert_eq!(list_names().len(), 56);
    assert_eq!(dark_names().len(), 44);
    assert_eq!(light_names().len(), 11);
}

#[test]
fn selectors_give_the_exact_catalog_entry() {
    // a caller with its own source of indices pins exact outcomes
    assert_eq!(name_at(0).as_deref(), Some("ashes_dark"));
    assert_eq!(name_at(13).as_deref(), Some("gruvbox_dark"));
    assert_eq!(name_at(55).as_deref(), Some("xcode_light"));
    assert_eq!(name_at(56), None);
    assert_eq!(dark_name_at(0).as_deref(), Some("ashes_dark"));
    assert_eq!(dark_name_at(43).as_deref(), Some("xcode_dark"));
    assert_eq!(dark_name_at(44), None);
    assert_eq!(light_name_at(0).as_deref(), Some("ashes_light"));
    assert_eq!(light_name_at(10).as_deref(), Some("xcode_light"));
    assert_eq!(light_name_at(11), None);
    // the selectors agree with the listed universes
    let all = list_names();
    for (i, n) in all.iter().enumerate() {
        assert_eq!(name_at(i).as_ref(), Some(n));
    }
}

#[test]
fn random_names_come_from_their_universes() {
    let all = list_names();
    let dark = dark_names();
    let light = light_names();
    for _ in 0..20 {
        assert!(all.contains(&rand()));
        assert!(dark.contains(&rand_dark()));
        assert!(light.contains(&rand_light()));
    }
}

#[test]
fn rendered_colors_read_the_prepared_ramps() {
    let mut colors = ThemeColors::default();
    colors.prepare(&ThemeConfig::default()).unwrap();
    let out = Colors::from_theme(&colors);
    let primary = out.primary.as_ref().unwrap();
    assert_eq!(primary.background.as_deref(), colors.background.index(1).map(|s| s.as_str()));
    assert_eq!(primary.foreground.as_deref(), Some("#ffffff"));
    assert_eq!(
        primary.dim_foreground.as_deref(),
        colors.foreground.index(2).map(|s| s.as_str())
    );
    let normal = out.normal.as_ref().unwrap();
    assert_eq!(normal.red, "#ff0000");
    assert!(out.bright.is_some());
    assert!(out.dim.is_some());
    assert_eq!(out.indexed_colors.len(), 2);
    assert_eq!(out.indexed_colors[0].index, 16);
    assert_eq!(out.indexed_colors[0].color, "#ff8700");
    assert_eq!(out.indexed_colors[1].index, 17);
    assert_eq!(out.indexed_colors[1].color, "#ff5faf");
}

#[test]
fn indexed_colors_fall_back_to_yellow_and_red() {
    let mut colors = ThemeColors::default();
    colors.base = new_term_colors(
        "#101010", "#aa0000", "#00aa00", "#aaaa00", "#0000aa", "#aa00aa", "#00aaaa", "#eeeeee",
        "", "",
    );
    colors.prepare(&ThemeConfig::default()).unwrap();
    let out = Colors::from_theme(&colors);
    assert_eq!(out.indexed_colors[0].color, "#aaaa00");
    assert_eq!(out.indexed_colors[1].color, "#aa0000");
}
