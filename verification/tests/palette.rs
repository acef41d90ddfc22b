//! Command palette state: catalog, filtering and selection movement.

use cass::ui::palette::{default_actions, item, PaletteAction, PaletteState};

#[test]
fn default_actions_catalog_shape() {
    let actions = default_actions();
    assert_eq!(actions.len(), 30);
    assert_eq!(actions[0].label, "Toggle theme");
    assert_eq!(actions[11].label, "Saved views");
    assert_eq!(actions[12].label, "Save view to slot 1");
    assert_eq!(actions[13].label, "Load view from slot 1");
    assert_eq!(actions[28].label, "Save view to slot 9");
    assert_eq!(actions[29].label, "Load view from slot 9");
}

#[test]
fn new_palette_shows_everything() {
    let state = PaletteState::new(default_actions());
    assert!(!state.open);
    assert_eq!(state.query, "");
    assert_eq!(state.filtered.len(), 30);
    assert_eq!(state.selected, 0);
}

#[test]
fn refilter_matches_label_and_hint_case_insensitively() {
    let mut state = PaletteState::new(default_actions());
    state.query = "THEME".to_string();
    state.refilter();
    assert_eq!(state.filtered.len(), 1);
    assert_eq!(state.filtered[0].label, "Toggle theme");

    // `week` occurs in a label; `cozy` only in a hint.
    state.query = "cozy".to_string();
    state.refilter();
    assert_eq!(state.filtered.len(), 1);
    assert_eq!(state.filtered[0].label, "Toggle density");

    state.query = "   ".to_string();
    state.refilter();
    assert_eq!(state.filtered.len(), 30);
}

#[test]
fn refilter_clamps_selection() {
    let mut state = PaletteState::new(default_actions());
    state.selected = 25;
    state.query = "filter:".to_string();
    state.refilter();
    assert!(state.filtered.len() >= 1);
    assert_eq!(state.selected, state.filtered.len() - 1);
}

#[test]
fn move_selection_wraps_both_ways() {
    let mut state = PaletteState::new(vec![
        item(PaletteAction::ToggleTheme, "a", ""),
        item(PaletteAction::ToggleDensity, "b", ""),
        item(PaletteAction::ReloadIndex, "c", ""),
    ]);
    state.move_selection(1);
    assert_eq!(state.selected, 1);
    state.move_selection(2);
    assert_eq!(state.selected, 0);
    state.move_selection(-1);
    assert_eq!(state.selected, 2);
    state.move_selection(-7);
    assert_eq!(state.selected, 1);
}

#[test]
fn move_selection_on_empty_list() {
    let mut state = PaletteState::new(Vec::new());
    state.move_selection(-3);
    assert_eq!(state.selected, 0);
}
