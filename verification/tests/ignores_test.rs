use deep_unpack::NoWalkList;

fn list(patterns: &[&str]) -> NoWalkList {
    NoWalkList { ignores: patterns.iter().map(|p| p.to_string()).collect() }
}

#[test]
fn is_ignored_matches_any_pattern() {
    let nw = list(&["folder-1", "folder-2"]);
    assert!(nw.is_ignored("tests/mocks/multiple/folder-1/a.zip"));
    assert!(nw.is_ignored("x/folder-2"));
    assert!(!nw.is_ignored("tests/mocks/multiple/folder-3/a.zip"));
}

#[test]
fn regex_patterns_really_match() {
    let nw = list(&["^a/.*\\.zip$"]);
    assert!(nw.is_ignored("a/b.zip"));
    assert!(!nw.is_ignored("b/a.zip"));
    assert!(!nw.is_ignored("a/b.jar"));
}

#[test]
fn invalid_pattern_matches_nothing() {
    let nw = list(&["("]);
    assert!(!nw.all_patterns_valid());
    assert!(!nw.is_ignored("("));
    assert!(!nw.is_ignored("anything"));
    assert!(list(&["folder-1"]).all_patterns_valid());
}

#[test]
fn prunes_tests_enclosing_directories() {
    let nw = list(&["folder-1$"]);
    // The anchored pattern matches the directory prefix, not the file
    // path itself, so pruning sees it while a plain match does not.
    assert!(!nw.is_ignored("root/folder-1/a.zip"));
    assert!(nw.prunes("root".len(), "root/folder-1/a.zip"));
    assert!(!nw.prunes("root".len(), "root/folder-2/a.zip"));
    // A boundary at or above the root is not tested.
    let anchored = list(&["^root$"]);
    assert!(!anchored.prunes("root".len(), "root/a.zip"));
}
