use nfd2nfc::editor::path_description;
use nfd2nfc::numbers::{format_compact, format_count, format_unit};
use nfd2nfc::rules::{PathAction, PathEntry, PathMode, PathStatus};
use nfd2nfc::toast::{ToastLevel, ToastState, MAX_TOASTS};

#[test]
fn counts_grouped_by_thousands() {
    assert_eq!(format_count(0), "0");
    assert_eq!(format_count(7), "7");
    assert_eq!(format_count(999), "999");
    assert_eq!(format_count(1000), "1,000");
    assert_eq!(format_count(1234567), "1,234,567");
    assert_eq!(format_count(100000), "100,000");
}

#[test]
fn compact_counts() {
    assert_eq!(format_compact(999), "999");
    assert_eq!(format_compact(1000), "1K");
    assert_eq!(format_compact(1500), "1.5K");
    assert_eq!(format_compact(1_000_000), "1M");
    assert_eq!(format_compact(2_340_000), "2.3M");
    assert_eq!(format_unit(12_345, 1_000, 100, "K"), "12.3K");
}

fn entry(status: PathStatus, overrides: Option<usize>, action: PathAction, mode: PathMode) -> PathEntry {
    let mut e = PathEntry::new("~/docs".to_string(), action, mode, (Some(b"/h/docs".to_vec()), status));
    e.overrides = overrides;
    e
}

#[test]
fn rule_descriptions() {
    let es = vec![
        entry(PathStatus::Active, None, PathAction::Watch, PathMode::Recursive),
        entry(PathStatus::Active, Some(0), PathAction::Ignore, PathMode::Recursive),
        entry(PathStatus::Redundant(1), None, PathAction::Ignore, PathMode::Recursive),
        entry(PathStatus::NotFound, None, PathAction::Watch, PathMode::Children),
        entry(PathStatus::Active, None, PathAction::Watch, PathMode::Children),
    ];
    assert_eq!(
        path_description(0, &es),
        "~/docs\nWatches for changes and auto-converts NFD names to NFC in this directory and all subdirectories."
    );
    assert_eq!(
        path_description(1, &es),
        "~/docs\nOverrides #1. Excludes this directory and all subdirectories from watching."
    );
    assert_eq!(path_description(2, &es), "~/docs\nRedundant: same action as #2.");
    assert_eq!(path_description(3, &es), "~/docs\nPath not found: this rule is not applied.");
    assert_eq!(
        path_description(4, &es),
        "~/docs\nWatches for changes and auto-converts NFD names to NFC in this directory only, not subdirectories."
    );
}

#[test]
fn full_screen_retires_oldest_shown_notice() {
    let mut t = ToastState::new();
    for k in 0..MAX_TOASTS {
        t.push(format!("n{k}"), ToastLevel::Success);
    }
    assert_eq!(t.len(), MAX_TOASTS);
    assert!(!t.is_leaving(0));
    t.push("one more".to_string(), ToastLevel::Error);
    assert_eq!(t.len(), MAX_TOASTS + 1);
    assert!(t.is_leaving(0));
    assert!(!t.is_leaving(1));
    t.push("and another".to_string(), ToastLevel::Error);
    assert!(t.is_leaving(1));
    assert!(!t.is_leaving(2));
    assert!(!t.is_leaving(MAX_TOASTS + 1));
}
