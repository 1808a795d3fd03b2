use nfd2nfc::home::{abbreviate_home, abbreviate_home_path, expand_tilde, join_path, plist_path};
use nfd2nfc::paths::{path_child_of, path_within, same_path};
use nfd2nfc::rules::PathStatus;
use nfd2nfc::validate::{classify_probe, io_error_to_status, trim, validation_target, IoFailure, PathProbe};

#[test]
fn component_prefix() {
    assert!(path_within(b"/x/y", b"/x"));
    assert!(path_within(b"/x", b"/x"));
    assert!(!path_within(b"/xy", b"/x"));
    assert!(!path_within(b"/x", b"/x/y"));
    assert!(path_within(b"/x", b"/"));
    assert!(path_child_of(b"/x/y", b"/x"));
    assert!(!path_child_of(b"/x/y/z", b"/x"));
    assert!(!path_child_of(b"/x", b"/x"));
    assert!(same_path(b"/x", b"/x"));
    assert!(!same_path(b"/x", b"/y"));
}

#[test]
fn tilde_expansion() {
    assert_eq!(expand_tilde("~/Projects", "/home/u"), "/home/u/Projects");
    assert_eq!(expand_tilde("/abs/path", "/home/u"), "/abs/path");
    assert_eq!(expand_tilde("~user/x", "/home/u"), "~user/x");
    assert_eq!(expand_tilde("~", "/home/u"), "~");
    assert_eq!(expand_tilde("~/", "/home/u"), "/home/u/");
    assert_eq!(expand_tilde("~//etc", "/home/u"), "/etc");
    assert_eq!(expand_tilde("~/a", "/"), "/a");
}

#[test]
fn joining() {
    assert_eq!(join_path("/a", "b"), "/a/b");
    assert_eq!(join_path("/a/", "b"), "/a/b");
    assert_eq!(join_path("/a", "/b"), "/b");
    assert_eq!(join_path("", "b"), "b");
}

#[test]
fn home_abbreviation() {
    assert_eq!(abbreviate_home("/home/u/docs", "/home/u"), "~/docs");
    assert_eq!(abbreviate_home("/home/user2", "/home/u"), "~ser2");
    assert_eq!(abbreviate_home("/etc", "/home/u"), "/etc");
    assert_eq!(abbreviate_home_path("/home/u/docs/a", "/home/u"), "~/docs/a");
    assert_eq!(abbreviate_home_path("/home/u", "/home/u"), "~/");
    assert_eq!(abbreviate_home_path("/home/user2", "/home/u"), "/home/user2");
    assert_eq!(abbreviate_home_path("/etc", "/home/u"), "/etc");
}

#[test]
fn service_definition_path() {
    assert_eq!(
        plist_path("/Users/u"),
        "/Users/u/Library/LaunchAgents/homebrew.mxcl.nfd2nfc.plist"
    );
}

#[test]
fn trimming() {
    assert_eq!(trim("  /a b \t\n"), "/a b");
    assert_eq!(trim("   "), "");
    assert_eq!(trim(""), "");
    assert_eq!(trim("\u{3000}x\u{a0}"), "x");
}

#[test]
fn validation_targets() {
    assert_eq!(validation_target("", "/home/u"), None);
    assert_eq!(validation_target("  \t ", "/home/u"), None);
    assert_eq!(validation_target(" ~/Projects ", "/home/u"), Some("/home/u/Projects".to_string()));
    assert_eq!(validation_target("/already/canonical", "/home/u"), Some("/already/canonical".to_string()));
}

#[test]
fn probe_classification() {
    assert_eq!(
        classify_probe(PathProbe::Resolved { canonical: b"/a".to_vec(), is_dir: true }),
        (Some(b"/a".to_vec()), PathStatus::Active)
    );
    assert_eq!(
        classify_probe(PathProbe::Resolved { canonical: b"/a/f".to_vec(), is_dir: false }),
        (None, PathStatus::NotADirectory)
    );
    assert_eq!(
        classify_probe(PathProbe::CanonicalizeFailed(IoFailure::PermissionDenied)),
        (None, PathStatus::PermissionDenied)
    );
    assert_eq!(
        classify_probe(PathProbe::CanonicalizeFailed(IoFailure::NotFound)),
        (None, PathStatus::NotFound)
    );
    assert_eq!(
        classify_probe(PathProbe::MetadataFailed(IoFailure::Other)),
        (None, PathStatus::NotFound)
    );
    assert_eq!(io_error_to_status(IoFailure::PermissionDenied), PathStatus::PermissionDenied);
    assert_eq!(io_error_to_status(IoFailure::Other), PathStatus::NotFound);
}

#[test]
fn canonical_directory_validates_to_itself() {
    let p = "/home/u/Projects";
    let target = validation_target(p, "/home/u").unwrap();
    assert_eq!(target, p);
    assert_eq!(
        classify_probe(PathProbe::Resolved { canonical: target.as_bytes().to_vec(), is_dir: true }),
        (Some(p.as_bytes().to_vec()), PathStatus::Active)
    );
}
