use clipvault::palette::{nearest_palette_color, normalize_color_key, parse_hex_rgb, TAG_PALETTE};
use clipvault::tray::{tray_menu_intent, TrayMenuIntent};

#[test]
fn settings_does_not_show_main_panel_first() {
    assert_eq!(
        tray_menu_intent("settings").unwrap(),
        TrayMenuIntent::OpenSettings
    );
    assert_ne!(
        tray_menu_intent("settings").unwrap(),
        TrayMenuIntent::ShowMain
    );
}

#[test]
fn known_actions_map_to_intents() {
    assert_eq!(tray_menu_intent("show").unwrap(), TrayMenuIntent::ShowMain);
    assert_eq!(
        tray_menu_intent("pause").unwrap(),
        TrayMenuIntent::TogglePause
    );
    assert_eq!(tray_menu_intent("quit").unwrap(), TrayMenuIntent::Quit);
    assert!(tray_menu_intent("nope").is_err());
}

#[test]
fn unknown_tray_action_names_the_action() {
    assert_eq!(
        tray_menu_intent("nope").unwrap_err(),
        "unknown tray action: nope"
    );
}

fn palette_unique_count() -> usize {
    let mut keys: Vec<_> = TAG_PALETTE.iter().map(|c| normalize_color_key(c)).collect();
    keys.sort();
    keys.dedup();
    keys.len()
}

#[test]
fn tags_palette_has_12_unique_swatches() {
    assert_eq!(TAG_PALETTE.len(), 12);
    assert_eq!(palette_unique_count(), 12);
}

#[test]
fn tags_nearest_returns_exact_match() {
    assert_eq!(nearest_palette_color("#3B82F6"), "#3b82f6");
    assert_eq!(
        normalize_color_key(nearest_palette_color("  #22C55E  ")),
        "#22c55e"
    );
}

#[test]
fn tags_nearest_snaps_off_palette_onto_wheel() {
    let palette: Vec<_> = TAG_PALETTE.iter().map(|c| normalize_color_key(c)).collect();
    for legacy in ["#0078d4", "#60cdff", "#34d399", "#fbbf24", "#a78bfa"] {
        let snapped = normalize_color_key(nearest_palette_color(legacy));
        assert!(
            palette.contains(&snapped),
            "{legacy} snapped to {snapped} which is off-palette"
        );
    }
}

#[test]
fn tags_nearest_invalid_falls_back() {
    assert_eq!(nearest_palette_color("not-a-color"), TAG_PALETTE[0]);
    assert_eq!(nearest_palette_color(""), TAG_PALETTE[0]);
}

#[test]
fn tags_tests_palette_has_12_unique_swatches() {
    assert_eq!(TAG_PALETTE.len(), 12);
    assert_eq!(palette_unique_count(), 12);
}

#[test]
fn tags_tests_nearest_returns_exact_match() {
    assert_eq!(nearest_palette_color("#3B82F6"), "#3b82f6");
    assert_eq!(
        normalize_color_key(nearest_palette_color("  #22C55E  ")),
        "#22c55e"
    );
}

#[test]
fn tags_tests_nearest_snaps_off_palette_onto_wheel() {
    let palette: Vec<_> = TAG_PALETTE.iter().map(|c| normalize_color_key(c)).collect();
    for legacy in ["#0078d4", "#60cdff", "#34d399", "#fbbf24", "#a78bfa"] {
        let snapped = normalize_color_key(nearest_palette_color(legacy));
        assert!(
            palette.contains(&snapped),
            "{legacy} snapped to {snapped} which is off-palette"
        );
    }
}

#[test]
fn tags_tests_nearest_invalid_falls_back() {
    assert_eq!(nearest_palette_color("not-a-color"), TAG_PALETTE[0]);
    assert_eq!(nearest_palette_color(""), TAG_PALETTE[0]);
}

#[test]
fn nearest_snaps_a_known_legacy_blue() {
    assert_eq!(nearest_palette_color("#0078d4"), "#0ea5e9");
}

#[test]
fn hex_parses_short_and_long_forms() {
    assert_eq!(parse_hex_rgb("#fff"), Some((255, 255, 255)));
    assert_eq!(parse_hex_rgb(" #3B82F6 "), Some((0x3b, 0x82, 0xf6)));
    assert_eq!(parse_hex_rgb("#12345"), None);
    assert_eq!(parse_hex_rgb("#gg0000"), None);
}
