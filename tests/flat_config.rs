use nfd2nfc::flat::{
    filter_by_prefixes, remove_duplicates, remove_included_paths, remove_subpaths, Config, RawConfig,
    WatchMode,
};
use nfd2nfc::order::{path_le, sort_paths};

fn v(paths: &[&str]) -> Vec<Vec<u8>> {
    paths.iter().map(|p| p.as_bytes().to_vec()).collect()
}

#[test]
fn sorting_is_bytewise() {
    assert_eq!(sort_paths(v(&["/b", "/a/x", "/a", "/a-b"])), v(&["/a", "/a-b", "/a/x", "/b"]));
    assert!(path_le(b"/a", b"/a/b"));
    assert!(!path_le(b"/b", b"/a"));
    assert!(path_le(b"", b""));
}

#[test]
fn duplicates_go() {
    assert_eq!(remove_duplicates(v(&["/b", "/a", "/b", "/a"])), v(&["/a", "/b"]));
    assert_eq!(remove_duplicates(Vec::new()), Vec::<Vec<u8>>::new());
}

#[test]
fn subpaths_of_the_previous_kept_path_go() {
    assert_eq!(remove_subpaths(v(&["/a/b", "/a", "/c/d", "/a/b/c"])), v(&["/a", "/c/d"]));
    assert_eq!(remove_subpaths(v(&["/ab", "/a"])), v(&["/a", "/ab"]));
}

#[test]
fn prefixes_filter() {
    assert_eq!(filter_by_prefixes(v(&["/a/b", "/c", "/a"]), &v(&["/a"])), v(&["/c"]));
    assert_eq!(filter_by_prefixes(v(&["/ab"]), &v(&["/a"])), v(&["/ab"]));
}

#[test]
fn included_paths_go() {
    assert_eq!(remove_included_paths(&v(&["/a/b", "/c", "/a", "/a/b/c"])), v(&["/c", "/a"]));
}

#[test]
fn refine_removes_conflicts() {
    let c = Config::refine(
        v(&["/w", "/w/sub", "/w", "/i/x"]),
        v(&["/w/n", "/n", "/n", "/i/y"]),
        v(&["/i", "/i/deep"]),
    );
    assert_eq!(c.recursive_watch_paths, v(&["/w"]));
    assert_eq!(c.non_recursive_watch_paths, v(&["/n"]));
    assert_eq!(c.recursive_ignore_paths, v(&["/i"]));
}

#[test]
fn refine_by_inclusion_removes_every_covered_path() {
    let c = Config::refine_by_inclusion(
        v(&["/a/x", "/a-b", "/a", "/i/w"]),
        v(&["/a/n", "/n", "/i/n"]),
        v(&["/i", "/i/deep", "/i"]),
    );
    assert_eq!(c.recursive_watch_paths, v(&["/a", "/a-b"]));
    assert_eq!(c.non_recursive_watch_paths, v(&["/n"]));
    assert_eq!(c.recursive_ignore_paths, v(&["/i"]));
    // Sorting alone keeps "/a/x": "/a-b" sorts between it and "/a".
    assert_eq!(remove_subpaths(v(&["/a/x", "/a-b", "/a"])), v(&["/a", "/a-b", "/a/x"]));
}

#[test]
fn adding_and_removing_flat_paths() {
    let mut raw = RawConfig {
        recursive_watch_paths: vec!["/a".to_string()],
        non_recursive_watch_paths: vec![],
        recursive_ignore_paths: vec![],
    };
    raw.add_path("/b".to_string(), WatchMode::NonRecursive);
    raw.add_path("/a".to_string(), WatchMode::Ignore);
    raw.add_path("/a".to_string(), WatchMode::Recursive);
    assert_eq!(raw.recursive_watch_paths, vec!["/a".to_string(), "/a".to_string()]);
    assert_eq!(raw.non_recursive_watch_paths, vec!["/b".to_string()]);
    assert_eq!(raw.recursive_ignore_paths, vec!["/a".to_string()]);
    assert!(raw.remove_path(&"/a".to_string()));
    assert!(raw.recursive_watch_paths.is_empty());
    assert!(raw.recursive_ignore_paths.is_empty());
    assert_eq!(raw.non_recursive_watch_paths, vec!["/b".to_string()]);
    assert!(!raw.remove_path(&"/zz".to_string()));
}
