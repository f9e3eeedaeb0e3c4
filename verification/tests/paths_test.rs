use deep_unpack::paths::{
    apply_template, file_name_of, join_path, parent_of, split_file_by_name, strip_prefix,
};

#[test]
fn unpack_can_split_file_by_name() {
    let path = format!("{}/{}/{}", "foo", "bar", "baz.tar.gz");
    let (name, parent) = split_file_by_name(&path).unwrap();
    assert_eq!((name.as_str(), parent.as_str()), ("baz.tar.gz", "foo/bar"));
}

#[test]
fn walk_can_split_file_by_name() {
    let path = format!("{}/{}/{}", "foo", "bar", "baz.tar.gz");
    let (name, parent) = split_file_by_name(&path).unwrap();
    assert_eq!((name.as_str(), parent.as_str()), ("baz.tar.gz", "foo/bar"));
}

#[test]
fn split_without_separator_keeps_empty_parent() {
    let (name, parent) = split_file_by_name("baz.zip").unwrap();
    assert_eq!((name.as_str(), parent.as_str()), ("baz.zip", ""));
}

#[test]
fn split_fails_without_file_name() {
    assert!(split_file_by_name("").is_err());
    assert!(split_file_by_name("/").is_err());
    assert!(split_file_by_name(".").is_err());
    assert!(split_file_by_name("..").is_err());
    assert!(split_file_by_name("foo/..").is_err());
    assert!(split_file_by_name("./").is_err());
    assert!(split_file_by_name("/.").is_err());
}

#[test]
fn split_reads_past_trailing_separators_and_dots() {
    let (name, parent) = split_file_by_name("foo/bar/").unwrap();
    assert_eq!((name.as_str(), parent.as_str()), ("bar", "foo"));
    let (name, parent) = split_file_by_name("x.zip/").unwrap();
    assert_eq!((name.as_str(), parent.as_str()), ("x.zip", ""));
    let (name, parent) = split_file_by_name("a//b").unwrap();
    assert_eq!((name.as_str(), parent.as_str()), ("b", "a"));
    let (name, parent) = split_file_by_name("foo/.").unwrap();
    assert_eq!((name.as_str(), parent.as_str()), ("foo", ""));
    let (name, parent) = split_file_by_name("/a").unwrap();
    assert_eq!((name.as_str(), parent.as_str()), ("a", "/"));
}

#[test]
fn file_name_and_parent() {
    assert_eq!(file_name_of("a/b/c.zip"), "c.zip");
    assert_eq!(file_name_of("c.zip"), "c.zip");
    assert_eq!(file_name_of("c.zip///"), "c.zip");
    assert_eq!(file_name_of("..."), "...");
    assert_eq!(parent_of("a/b/c.zip"), "a/b");
    assert_eq!(parent_of("c.zip"), "");
    assert_eq!(parent_of("./a"), ".");
}

#[test]
fn join_inserts_separator_only_when_needed() {
    assert_eq!(join_path("out", "sub/a"), "out/sub/a");
    assert_eq!(join_path("out/", "a"), "out/a");
    assert_eq!(join_path("", "a"), "a");
}

#[test]
fn strip_prefix_is_component_wise() {
    assert_eq!(strip_prefix("root/sub/b.jar", "root").as_deref(), Some("sub/b.jar"));
    assert_eq!(strip_prefix("root/sub/b.jar", "root/").as_deref(), Some("sub/b.jar"));
    assert_eq!(strip_prefix("root", "root").as_deref(), Some(""));
    assert_eq!(strip_prefix("rooted/b.jar", "root"), None);
    assert_eq!(strip_prefix("elsewhere/a.zip", "root"), None);
    assert_eq!(strip_prefix("a/b", "").as_deref(), Some("a/b"));
}

#[test]
fn template_replaces_every_placeholder() {
    assert_eq!(apply_template("__${FILENAME}$__", "a.zip"), "__$a.zip$__");
    assert_eq!(apply_template("_PREFIX_${FILENAME}$_SUFFIX_", "a.zip"), "_PREFIX_$a.zip$_SUFFIX_");
    assert_eq!(apply_template("{FILENAME}-{FILENAME}", "x"), "x-x");
    assert_eq!(apply_template("plain", "x"), "plain");
    assert_eq!(apply_template("", "x"), "");
}
