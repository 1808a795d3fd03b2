use nfd2nfc::config::Config;
use nfd2nfc::editor::ConfigState;
use nfd2nfc::rules::{PathAction, PathEntry, PathMode, PathStatus};

fn valid(path: &str, action: PathAction, mode: PathMode) -> PathEntry {
    PathEntry::new(
        path.to_string(),
        action,
        mode,
        (Some(path.as_bytes().to_vec()), PathStatus::Active),
    )
}

fn state() -> ConfigState {
    ConfigState::from_config(Config::from_entries(vec![
        valid("/x", PathAction::Watch, PathMode::Recursive),
        valid("/x/y", PathAction::Watch, PathMode::Recursive),
        valid("/z", PathAction::Watch, PathMode::Children),
    ]))
}

#[test]
fn selection_moves_within_bounds() {
    let mut s = state();
    assert_eq!(s.selected, Some(0));
    s.select_previous();
    assert_eq!(s.selected, Some(0));
    s.select_next();
    s.select_next();
    s.select_next();
    assert_eq!(s.selected, Some(2));
    assert!(!s.has_changes);
    let empty = ConfigState::from_config(Config::empty());
    assert_eq!(empty.selected, None);
}

#[test]
fn reordering_resolves_again() {
    let mut s = state();
    s.select_next();
    s.move_up();
    assert_eq!(s.selected, Some(0));
    assert_eq!(s.config.paths[0].raw, "/x/y");
    assert_eq!(s.config.paths[1].raw, "/x");
    assert_eq!(s.config.paths[0].status, PathStatus::Redundant(1));
    assert!(s.has_changes);
    s.move_up();
    assert_eq!(s.selected, Some(0));
    s.move_down();
    assert_eq!(s.selected, Some(1));
    assert_eq!(s.config.paths[1].raw, "/x/y");
    assert_eq!(s.config.paths[1].status, PathStatus::Redundant(0));
}

#[test]
fn toggling_action_makes_ignore_recursive() {
    let mut s = state();
    s.select_next();
    s.select_next();
    s.toggle_action();
    assert_eq!(s.config.paths[2].action, PathAction::Ignore);
    assert_eq!(s.config.paths[2].mode, PathMode::Recursive);
    s.toggle_mode();
    assert_eq!(s.config.paths[2].mode, PathMode::Recursive);
    s.select_previous();
    s.toggle_action();
    assert_eq!(s.config.paths[1].status, PathStatus::Active);
    assert_eq!(s.config.paths[1].overrides, Some(0));
}

#[test]
fn toggling_mode_of_watch_rule() {
    let mut s = state();
    s.toggle_mode();
    assert_eq!(s.config.paths[0].mode, PathMode::Children);
    assert_eq!(s.config.paths[1].status, PathStatus::Active);
    assert_eq!(s.config.paths[1].overrides, None);
}

#[test]
fn deleting_adjusts_selection() {
    let mut s = state();
    s.delete_selected();
    assert_eq!(s.config.paths.len(), 2);
    assert_eq!(s.selected, Some(0));
    assert_eq!(s.config.paths[0].raw, "/x/y");
    assert_eq!(s.config.paths[0].status, PathStatus::Active);
    s.select_next();
    s.delete_selected();
    assert_eq!(s.selected, Some(0));
    s.delete_selected();
    assert_eq!(s.selected, None);
    assert!(s.config.paths.is_empty());
    s.delete_selected();
    assert_eq!(s.selected, None);
}

#[test]
fn adding_selects_new_rule() {
    let mut s = state();
    s.add_path(valid("/x", PathAction::Ignore, PathMode::Recursive));
    assert_eq!(s.selected, Some(3));
    assert_eq!(s.config.paths[3].status, PathStatus::Redundant(0));
    assert!(s.has_changes);
    s.mark_saved();
    assert!(!s.has_changes);
}
