use nfd2nfc::dispatch::{admit_event, effective_rule, should_dispatch, watch_registrations, Debouncer};
use nfd2nfc::normalize::{
    find_same_file, heuristic_rename_plan, is_dot_entry, plan_rename, should_descend, FileIdentity, NormalizationTarget,
    NormalizerError,
};
use nfd2nfc::rules::{ActiveEntry, PathAction, PathMode};
use nfd2nfc::validate::IoFailure;
use unicode_normalization::UnicodeNormalization;

fn active(path: &str, action: PathAction, mode: PathMode) -> ActiveEntry {
    ActiveEntry { canonical: path.as_bytes().to_vec(), action, mode }
}

fn nfd(s: &str) -> String {
    s.nfd().collect()
}

#[test]
fn deeper_ignore_wins_over_watch() {
    let es = vec![
        active("/a", PathAction::Watch, PathMode::Recursive),
        active("/a/b", PathAction::Ignore, PathMode::Recursive),
    ];
    assert_eq!(effective_rule(&es, b"/a/b/c/file"), Some(1));
    assert!(!should_dispatch(&es, b"/a/b/c/file"));
    assert_eq!(effective_rule(&es, b"/a/c/file"), Some(0));
    assert!(should_dispatch(&es, b"/a/c/file"));
}

#[test]
fn unmatched_event_is_dropped() {
    let es = vec![active("/a", PathAction::Watch, PathMode::Recursive)];
    assert_eq!(effective_rule(&es, b"/ab/file"), None);
    assert!(!should_dispatch(&es, b"/ab/file"));
    assert!(should_dispatch(&es, b"/a"));
    assert!(!should_dispatch(&Vec::new(), b"/a/file"));
}

#[test]
fn children_rule_reaches_direct_entries_only() {
    let es = vec![active("/a", PathAction::Watch, PathMode::Children)];
    assert!(should_dispatch(&es, b"/a/file"));
    assert!(!should_dispatch(&es, b"/a/sub/file"));
    assert!(!should_dispatch(&es, b"/a"));
    let root = vec![active("/", PathAction::Watch, PathMode::Children)];
    assert!(should_dispatch(&root, b"/file"));
    assert!(!should_dispatch(&root, b"/d/file"));
}

#[test]
fn children_ignore_inside_recursive_watch() {
    let es = vec![
        active("/a", PathAction::Watch, PathMode::Recursive),
        active("/a/b", PathAction::Ignore, PathMode::Children),
    ];
    assert!(!should_dispatch(&es, b"/a/b/file"));
    assert!(should_dispatch(&es, b"/a/b/sub/file"));
}

#[test]
fn admission_filters_already_normalized_names() {
    let es = vec![active("/a", PathAction::Watch, PathMode::Recursive)];
    let decomposed = nfd("\u{d30c}\u{c77c}.txt");
    assert!(admit_event(&es, b"/a/x", &decomposed, NormalizationTarget::NFC));
    assert!(!admit_event(&es, b"/a/x", "\u{d30c}\u{c77c}.txt", NormalizationTarget::NFC));
    assert!(!admit_event(&es, b"/b/x", &decomposed, NormalizationTarget::NFC));
}

#[test]
fn burst_on_one_path_dispatches_once() {
    let mut d: Debouncer<u32> = Debouncer::new();
    for k in 0..10u32 {
        d.record(b"/a/file".to_vec(), k);
    }
    assert_eq!(d.len(), 1);
    let out = d.drain();
    assert_eq!(out.len(), 1);
    assert_eq!(out[0].0, b"/a/file".to_vec());
    assert_eq!(out[0].1, 9);
    assert_eq!(d.len(), 0);
    assert_eq!(d.drain().len(), 0);
}

#[test]
fn distinct_paths_each_dispatch_once() {
    let mut d: Debouncer<u32> = Debouncer::new();
    d.record(b"/a/1".to_vec(), 1);
    d.record(b"/a/2".to_vec(), 2);
    d.record(b"/a/1".to_vec(), 3);
    let out = d.drain();
    assert_eq!(out, vec![(b"/a/1".to_vec(), 3), (b"/a/2".to_vec(), 2)]);
}

#[test]
fn name_in_target_form_is_not_renamed() {
    assert_eq!(plan_rename("already_nfc.txt", NormalizationTarget::NFC), None);
    assert_eq!(plan_rename("\u{d14c}\u{c2a4}\u{d2b8}.txt", NormalizationTarget::NFC), None);
    let decomposed = nfd("\u{d14c}\u{c2a4}\u{d2b8}.txt");
    assert_eq!(plan_rename(&decomposed, NormalizationTarget::NFD), None);
}

#[test]
fn decomposed_name_is_composed() {
    let decomposed = nfd("\u{ce74}\u{d398}.txt");
    assert_ne!(decomposed, "\u{ce74}\u{d398}.txt");
    assert_eq!(
        plan_rename(&decomposed, NormalizationTarget::NFC),
        Some("\u{ce74}\u{d398}.txt".to_string())
    );
    assert_eq!(
        plan_rename("\u{ce74}\u{d398}.txt", NormalizationTarget::NFD),
        Some(decomposed.clone())
    );
}

#[test]
fn compose_decompose_compose_round_trip() {
    let name = "\u{c11c}\u{be0c}\u{d3f4}\u{b354} caf\u{e9}.txt";
    let composed = NormalizationTarget::NFC.convert(name);
    let decomposed = NormalizationTarget::NFD.convert(&composed);
    let back = NormalizationTarget::NFC.convert(&decomposed);
    assert_ne!(decomposed.as_bytes(), name.as_bytes());
    assert_eq!(back.as_bytes(), name.as_bytes());
}

#[test]
fn conversion_checks() {
    let decomposed = nfd("\u{ce74}\u{d398}");
    assert!(NormalizationTarget::NFC.needs_conversion(&decomposed));
    assert!(!NormalizationTarget::NFD.needs_conversion(&decomposed));
    assert!(NormalizationTarget::NFD.needs_conversion("\u{ce74}\u{d398}"));
    assert!(!NormalizationTarget::NFC.needs_conversion("plain"));
    assert_eq!(NormalizationTarget::NFC.as_str(), "NFC");
    assert_eq!(NormalizationTarget::NFD.as_str(), "NFD");
}

#[test]
fn vanished_entries_are_benign() {
    assert!(NormalizerError::OpenError("x".to_string(), IoFailure::NotFound).is_not_found());
    assert!(NormalizerError::RenameError {
        from: "a".to_string(),
        to: "b".to_string(),
        kind: IoFailure::NotFound
    }
    .is_not_found());
    assert!(!NormalizerError::OpenError("x".to_string(), IoFailure::PermissionDenied).is_not_found());
    assert!(!NormalizerError::ReadDirError("x".to_string(), IoFailure::NotFound).is_not_found());
    assert!(!NormalizerError::FcntlError.is_not_found());
}

#[test]
fn identity_scan_finds_first_match() {
    let es = vec![
        FileIdentity { dev: 1, ino: 5 },
        FileIdentity { dev: 2, ino: 7 },
        FileIdentity { dev: 1, ino: 7 },
        FileIdentity { dev: 1, ino: 7 },
    ];
    assert_eq!(find_same_file(&es, FileIdentity { dev: 1, ino: 7 }), Some(2));
    assert_eq!(find_same_file(&es, FileIdentity { dev: 3, ino: 7 }), None);
    assert_eq!(find_same_file(&Vec::new(), FileIdentity { dev: 1, ino: 7 }), None);
}

#[test]
fn walk_decisions() {
    assert!(should_descend(true, true, false, true));
    assert!(!should_descend(false, true, false, true));
    assert!(!should_descend(true, false, false, true));
    assert!(!should_descend(true, true, true, true));
    assert!(!should_descend(true, true, false, false));
    assert!(is_dot_entry("."));
    assert!(is_dot_entry(".."));
    assert!(!is_dot_entry("..."));
    assert!(!is_dot_entry(".git"));
}

#[test]
fn heuristic_rename_between_forms() {
    let composed = "\u{c11c}\u{be0c}.txt".to_string();
    let decomposed = nfd(&composed);
    assert_eq!(
        heuristic_rename_plan(&composed, NormalizationTarget::NFC),
        Some((decomposed.clone(), composed.clone()))
    );
    assert_eq!(
        heuristic_rename_plan(&decomposed, NormalizationTarget::NFD),
        Some((composed.clone(), decomposed.clone()))
    );
    assert_eq!(heuristic_rename_plan("plain.txt", NormalizationTarget::NFC), None);
}

#[test]
fn only_watch_rules_are_registered() {
    let es = vec![
        active("/a", PathAction::Watch, PathMode::Recursive),
        active("/a/b", PathAction::Ignore, PathMode::Recursive),
        active("/c", PathAction::Watch, PathMode::Children),
    ];
    assert_eq!(
        watch_registrations(&es),
        vec![(b"/a".to_vec(), true), (b"/c".to_vec(), false)]
    );
}
