use deep_unpack::ArchiveKind;

#[test]
fn classification_is_idempotent() {
    let paths = ["a.zip", "A.ZIP", "dir/b.JaR", "c.tar.gz", "", "zip"];
    for p in paths {
        assert_eq!(ArchiveKind::for_path(p), ArchiveKind::for_path(p));
    }
}

#[test]
fn zip_and_jar_classify_as_the_same_kind() {
    assert_eq!(ArchiveKind::for_path("a.zip"), Some(ArchiveKind::Zip));
    assert_eq!(ArchiveKind::for_path("a.ZIP"), Some(ArchiveKind::Zip));
    assert_eq!(ArchiveKind::for_path("dir/sub/b.jar"), Some(ArchiveKind::Zip));
    assert_eq!(ArchiveKind::for_path("b.JAR"), Some(ArchiveKind::Zip));
    assert_eq!(ArchiveKind::for_path("a.zip"), ArchiveKind::for_path("b.jar"));
    // Trailing separators are read past, as std path inspection does.
    assert_eq!(ArchiveKind::for_path("x.zip/"), Some(ArchiveKind::Zip));
    assert_eq!(ArchiveKind::for_path("x.zip/."), Some(ArchiveKind::Zip));
}

#[test]
fn other_names_are_not_archives() {
    assert_eq!(ArchiveKind::for_path("c.tar.gz"), None);
    assert_eq!(ArchiveKind::for_path("zip"), None);
    assert_eq!(ArchiveKind::for_path("a.zipp"), None);
    assert_eq!(ArchiveKind::for_path("a.zip.txt"), None);
    assert_eq!(ArchiveKind::for_path(""), None);
    assert_eq!(ArchiveKind::for_path("dir.zip/file.txt"), None);
    assert_eq!(ArchiveKind::for_path(".."), None);
}

#[test]
fn kind_builds_an_archive_record() {
    let archive = ArchiveKind::for_path("x/y.zip").unwrap().new("x/y.zip");
    assert_eq!(archive.path(), "x/y.zip");
}
