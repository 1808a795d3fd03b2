use nfd2nfc::config::Config;
use nfd2nfc::resolve::compute_statuses;
use nfd2nfc::rules::{PathAction, PathEntry, PathMode, PathStatus};

fn valid(path: &str, action: PathAction, mode: PathMode) -> PathEntry {
    PathEntry::new(
        path.to_string(),
        action,
        mode,
        (Some(path.as_bytes().to_vec()), PathStatus::Active),
    )
}

fn invalid(path: &str, status: PathStatus) -> PathEntry {
    PathEntry::new(path.to_string(), PathAction::Watch, PathMode::Recursive, (None, status))
}

#[test]
fn nested_same_action_is_redundant() {
    let mut es = vec![
        valid("/x", PathAction::Watch, PathMode::Recursive),
        valid("/x/y", PathAction::Watch, PathMode::Recursive),
    ];
    compute_statuses(&mut es);
    assert_eq!(es[0].status, PathStatus::Active);
    assert_eq!(es[1].status, PathStatus::Redundant(0));
    assert_eq!(es[1].overrides, None);
}

#[test]
fn nested_other_action_overrides() {
    let mut es = vec![
        valid("/x", PathAction::Watch, PathMode::Recursive),
        valid("/x/y", PathAction::Ignore, PathMode::Recursive),
    ];
    compute_statuses(&mut es);
    assert_eq!(es[1].status, PathStatus::Active);
    assert_eq!(es[1].overrides, Some(0));
}

#[test]
fn same_path_later_is_redundant_whatever_the_action() {
    let mut es = vec![
        valid("/x", PathAction::Watch, PathMode::Recursive),
        valid("/x", PathAction::Ignore, PathMode::Children),
    ];
    compute_statuses(&mut es);
    assert_eq!(es[0].status, PathStatus::Active);
    assert_eq!(es[1].status, PathStatus::Redundant(0));

    let mut es = vec![
        valid("/x", PathAction::Ignore, PathMode::Recursive),
        valid("/x", PathAction::Ignore, PathMode::Recursive),
    ];
    compute_statuses(&mut es);
    assert_eq!(es[1].status, PathStatus::Redundant(0));
}

#[test]
fn order_of_declaration_does_not_matter_for_ancestors() {
    let mut es = vec![
        valid("/x/y/z", PathAction::Watch, PathMode::Recursive),
        valid("/x/y", PathAction::Ignore, PathMode::Recursive),
        valid("/x", PathAction::Watch, PathMode::Recursive),
    ];
    compute_statuses(&mut es);
    assert_eq!(es[2].status, PathStatus::Active);
    assert_eq!(es[1].status, PathStatus::Active);
    assert_eq!(es[1].overrides, Some(2));
    assert_eq!(es[0].status, PathStatus::Active);
    assert_eq!(es[0].overrides, Some(1));
}

#[test]
fn children_rule_is_never_a_fallback() {
    let mut es = vec![
        valid("/x", PathAction::Watch, PathMode::Children),
        valid("/x/y", PathAction::Watch, PathMode::Recursive),
    ];
    compute_statuses(&mut es);
    assert_eq!(es[0].status, PathStatus::Active);
    assert_eq!(es[1].status, PathStatus::Active);
    assert_eq!(es[1].overrides, None);
}

#[test]
fn unrelated_paths_of_equal_length_are_independent() {
    let mut es = vec![
        valid("/ab", PathAction::Watch, PathMode::Recursive),
        valid("/ab2", PathAction::Watch, PathMode::Recursive),
        valid("/cd", PathAction::Watch, PathMode::Recursive),
    ];
    compute_statuses(&mut es);
    for e in &es {
        assert_eq!(e.status, PathStatus::Active);
        assert_eq!(e.overrides, None);
    }
}

#[test]
fn invalid_rules_keep_their_status() {
    let mut es = vec![
        invalid("/missing", PathStatus::NotFound),
        valid("/x", PathAction::Watch, PathMode::Recursive),
        invalid("/file", PathStatus::NotADirectory),
        invalid("/secret", PathStatus::PermissionDenied),
    ];
    compute_statuses(&mut es);
    assert_eq!(es[0].status, PathStatus::NotFound);
    assert_eq!(es[1].status, PathStatus::Active);
    assert_eq!(es[2].status, PathStatus::NotADirectory);
    assert_eq!(es[3].status, PathStatus::PermissionDenied);
}

#[test]
fn inactive_duplicate_does_not_shadow() {
    // The first "/x/y" is redundant to "/x"; the second, with another action,
    // is compared with "/x" and overrides it.
    let mut es = vec![
        valid("/x", PathAction::Watch, PathMode::Recursive),
        valid("/x/y", PathAction::Watch, PathMode::Recursive),
        valid("/x/y", PathAction::Ignore, PathMode::Recursive),
    ];
    compute_statuses(&mut es);
    assert_eq!(es[1].status, PathStatus::Redundant(0));
    assert_eq!(es[2].status, PathStatus::Active);
    assert_eq!(es[2].overrides, Some(0));
}

#[test]
fn rerunning_resolution_changes_nothing() {
    let mut es = vec![
        valid("/x", PathAction::Watch, PathMode::Recursive),
        valid("/x/y", PathAction::Ignore, PathMode::Recursive),
        valid("/x/y/z", PathAction::Ignore, PathMode::Recursive),
        valid("/x", PathAction::Watch, PathMode::Recursive),
        invalid("", PathStatus::NotFound),
    ];
    compute_statuses(&mut es);
    let first: Vec<(PathStatus, Option<usize>)> = es.iter().map(|e| (e.status, e.overrides)).collect();
    compute_statuses(&mut es);
    let second: Vec<(PathStatus, Option<usize>)> = es.iter().map(|e| (e.status, e.overrides)).collect();
    assert_eq!(first, second);
    assert_eq!(first[2], (PathStatus::Redundant(1), None));
    assert_eq!(first[3], (PathStatus::Redundant(0), None));
}

#[test]
fn root_rule_covers_everything() {
    let mut es = vec![
        valid("/", PathAction::Watch, PathMode::Recursive),
        valid("/a", PathAction::Watch, PathMode::Recursive),
    ];
    compute_statuses(&mut es);
    assert_eq!(es[1].status, PathStatus::Redundant(0));
}

#[test]
fn refresh_takes_new_validation() {
    let mut c = Config::from_entries(vec![
        valid("/x", PathAction::Watch, PathMode::Recursive),
        valid("/x/y", PathAction::Watch, PathMode::Recursive),
    ]);
    assert_eq!(c.paths[1].status, PathStatus::Redundant(0));
    c.refresh_statuses(vec![
        (None, PathStatus::NotFound),
        (Some(b"/x/y".to_vec()), PathStatus::Active),
    ]);
    assert_eq!(c.paths[0].status, PathStatus::NotFound);
    assert_eq!(c.paths[0].canonical, None);
    assert_eq!(c.paths[1].status, PathStatus::Active);
    assert_eq!(c.paths[0].raw, "/x");
}

#[test]
fn active_entries_project_active_rules_in_order() {
    let c = Config::from_entries(vec![
        valid("/x", PathAction::Watch, PathMode::Recursive),
        valid("/x/y", PathAction::Watch, PathMode::Recursive),
        invalid("/gone", PathStatus::NotFound),
        valid("/x/z", PathAction::Ignore, PathMode::Children),
    ]);
    let a = c.active_entries();
    assert_eq!(a.len(), 2);
    assert_eq!(a[0].canonical, b"/x".to_vec());
    assert_eq!(a[0].action, PathAction::Watch);
    assert_eq!(a[1].canonical, b"/x/z".to_vec());
    assert_eq!(a[1].action, PathAction::Ignore);
    assert_eq!(a[1].mode, PathMode::Children);
    assert_eq!(Config::empty().active_entries().len(), 0);
}

#[test]
fn labels_and_toggles() {
    assert_eq!(PathAction::Watch.as_str(), "Watch");
    assert_eq!(PathAction::Ignore.as_str(), "Ignore");
    assert_eq!(PathAction::Watch.toggle(), PathAction::Ignore);
    assert_eq!(PathAction::Ignore.toggle(), PathAction::Watch);
    assert_eq!(PathMode::Recursive.as_str(), "Recursive");
    assert_eq!(PathMode::Children.as_str(), "Children");
    assert_eq!(PathMode::Recursive.toggle(), PathMode::Children);
    assert_eq!(PathMode::Children.toggle(), PathMode::Recursive);
    assert_eq!(PathStatus::Active.as_str(), "Active");
    assert_eq!(PathStatus::NotFound.as_str(), "Not Found");
    assert_eq!(PathStatus::NotADirectory.as_str(), "Not a Dir");
    assert_eq!(PathStatus::PermissionDenied.as_str(), "No Access");
    assert_eq!(PathStatus::Redundant(3).as_str(), "Redundant");
    assert_eq!(PathStatus::Active.symbol(), "\u{2713}");
    assert_eq!(PathStatus::Redundant(0).symbol(), "~");
    assert_eq!(PathStatus::NotFound.symbol(), "\u{2717}");
}
