use deep_unpack::{
    ConfigError, DeepWalk, FileEntry, NoWalkList, Phase, Session, UnpackStatus,
};

fn config(folder: &str, out: &str, level: u32) -> DeepWalk {
    DeepWalk::new().folder(folder).unpack_folder(out).unpack_level(level).build()
}

fn entries(items: &[(&str, bool)]) -> Vec<FileEntry> {
    items.iter().map(|(p, d)| FileEntry { path: p.to_string(), is_dir: *d }).collect()
}

/// Drives a session with one scripted scan result per level; every
/// dispatched job succeeds.
fn drive(mut session: Session, scans: &[Vec<FileEntry>]) -> Vec<UnpackStatus> {
    let mut level: usize = 0;
    loop {
        match session.phase {
            Phase::Scanning => {
                let batch = if level < scans.len() { scans[level].clone() } else { Vec::new() };
                session.on_scan(&batch);
                level += 1;
            }
            Phase::Dispatching => {
                let errs: Vec<Option<String>> =
                    session.pending_jobs().iter().map(|_| None).collect();
                session.on_unpacked(&errs);
            }
            Phase::Done => return session.into_outcomes(),
        }
    }
}

#[test]
fn no_archives_yields_empty_outcome_list() {
    for level in [1u32, 2, 5] {
        let session = Session::new(config("root", "out", level)).unwrap();
        let scan = entries(&[("root/readme.txt", false), ("root/sub", true)]);
        let outcomes = drive(session, &[scan]);
        assert!(outcomes.is_empty());
    }
}

#[test]
fn two_archives_extract_under_mirrored_destinations() {
    let session = Session::new(config("root", "out", 1)).unwrap();
    let scan = entries(&[
        ("root/a.zip", false),
        ("root/sub", true),
        ("root/sub/b.jar", false),
    ]);
    let outcomes = drive(session, &[scan]);
    assert_eq!(outcomes.len(), 2);
    assert_eq!(
        outcomes[0],
        UnpackStatus {
            archive_file: "root/a.zip".to_string(),
            extract_to: Some("out/__$a.zip$__".to_string()),
            err: None,
        }
    );
    assert_eq!(
        outcomes[1],
        UnpackStatus {
            archive_file: "root/sub/b.jar".to_string(),
            extract_to: Some("out/sub/__$b.jar$__".to_string()),
            err: None,
        }
    );
}

#[test]
fn nested_archive_needs_depth_two() {
    let first = entries(&[("root/outer.zip", false)]);
    let second = entries(&[("out/__$outer.zip$__/inner.zip", false)]);

    let shallow = drive(Session::new(config("root", "out", 1)).unwrap(), &[first.clone()]);
    assert_eq!(shallow.len(), 1);
    assert_eq!(shallow[0].archive_file, "root/outer.zip");

    let deep = drive(
        Session::new(config("root", "out", 2)).unwrap(),
        &[first, second],
    );
    assert_eq!(deep.len(), 2);
    assert_eq!(deep[0].archive_file, "root/outer.zip");
    assert_eq!(deep[1].archive_file, "out/__$outer.zip$__/inner.zip");
    assert_eq!(
        deep[1].extract_to.as_deref(),
        Some("out/__$outer.zip$__/__$inner.zip$__")
    );
}

#[test]
fn no_source_path_is_extracted_twice() {
    // Deeper scans keep rediscovering the same archive; only the first
    // discovery is dispatched.
    let rescan = entries(&[("out/x/inner.zip", false)]);
    let outcomes = drive(
        Session::new(config("root", "out", 5)).unwrap(),
        &[entries(&[("root/outer.zip", false)]), rescan.clone(), rescan.clone(), rescan],
    );
    assert_eq!(outcomes.len(), 2);
    let mut sources: Vec<&str> =
        outcomes.iter().map(|o| o.archive_file.as_str()).collect();
    sources.sort();
    sources.dedup();
    assert_eq!(sources.len(), outcomes.len());
}

#[test]
fn extra_depth_budget_is_a_no_op_once_nesting_is_exhausted() {
    let scans = vec![
        entries(&[("root/outer.zip", false)]),
        entries(&[("out/__$outer.zip$__/inner.zip", false)]),
        Vec::new(),
    ];
    let with_three = drive(Session::new(config("root", "out", 3)).unwrap(), &scans);
    let with_nine = drive(Session::new(config("root", "out", 9)).unwrap(), &scans);
    assert_eq!(with_three, with_nine);
    assert_eq!(with_three.len(), 2);
}

#[test]
fn ignored_subdirectories_contribute_no_outcomes() {
    let no_walk = NoWalkList { ignores: vec!["skip-me".to_string()] };
    let cfg = DeepWalk::new()
        .folder("root")
        .unpack_folder("out")
        .unpack_level(3)
        .no_walk(no_walk)
        .build();
    let scan = entries(&[
        ("root/skip-me", true),
        ("root/skip-me/c.zip", false),
        ("root/keep/d.zip", false),
    ]);
    let outcomes = drive(Session::new(cfg).unwrap(), &[scan]);
    assert_eq!(outcomes.len(), 1);
    assert_eq!(outcomes[0].archive_file, "root/keep/d.zip");
}

#[test]
fn one_failed_extraction_does_not_abort_its_siblings() {
    let mut session = Session::new(config("root", "out", 1)).unwrap();
    session.on_scan(&entries(&[
        ("root/broken.zip", false),
        ("root/fine.zip", false),
    ]));
    assert_eq!(session.phase, Phase::Dispatching);
    assert_eq!(session.pending_jobs().len(), 2);
    let errs = vec![Some("invalid Zip archive".to_string()), None];
    session.on_unpacked(&errs);
    assert_eq!(session.phase, Phase::Done);
    let outcomes = session.into_outcomes();
    assert_eq!(outcomes.len(), 2);
    assert_eq!(outcomes[0].archive_file, "root/broken.zip");
    assert_eq!(outcomes[0].extract_to, None);
    assert_eq!(outcomes[0].err.as_deref(), Some("invalid Zip archive"));
    assert_eq!(outcomes[1].archive_file, "root/fine.zip");
    assert!(outcomes[1].err.is_none());
    assert!(outcomes[1].extract_to.is_some());
}

#[test]
fn custom_template_names_every_destination() {
    let cfg = DeepWalk::new()
        .folder("root")
        .unpack_folder("out")
        .unpack_level(2)
        .extract_template("_PREFIX_${FILENAME}$_SUFFIX_")
        .build();
    let scans = vec![
        entries(&[("root/a.zip", false)]),
        entries(&[("out/_PREFIX_$a.zip$_SUFFIX_/inner.jar", false)]),
    ];
    let outcomes = drive(Session::new(cfg).unwrap(), &scans);
    assert_eq!(outcomes.len(), 2);
    assert_eq!(outcomes[0].extract_to.as_deref(), Some("out/_PREFIX_$a.zip$_SUFFIX_"));
    assert_eq!(
        outcomes[1].extract_to.as_deref(),
        Some("out/_PREFIX_$a.zip$_SUFFIX_/_PREFIX_$inner.jar$_SUFFIX_")
    );
}

#[test]
fn invalid_ignore_pattern_is_a_config_error() {
    let cfg = DeepWalk::new()
        .no_walk(NoWalkList { ignores: vec!["(".to_string()] })
        .build();
    assert_eq!(Session::new(cfg).err(), Some(ConfigError::InvalidIgnorePattern));
}

#[test]
fn builder_defaults_match_the_documented_configuration() {
    let cfg = DeepWalk::new().build();
    assert_eq!(cfg.folder, ".");
    assert_eq!(cfg.unpack_folder, "deep_unpack");
    assert_eq!(cfg.unpack_level, 1);
    assert_eq!(cfg.extract_template, "__${FILENAME}$__");
    assert!(cfg.no_walk.ignores.iter().any(|p| p.contains("git")));
    let again = DeepWalk::new().build();
    assert_eq!(cfg, again);
}

#[test]
fn source_not_under_scan_root_falls_back_to_the_output_root() {
    let mut session = Session::new(config("root", "out", 1)).unwrap();
    session.on_scan(&entries(&[("elsewhere/a.zip", false)]));
    let jobs = session.pending_jobs();
    assert_eq!(jobs.len(), 1);
    // The mirror step falls back to the output root; the template still
    // names the final directory.
    assert_eq!(jobs[0].unpack_into, "__$out$__");
}

#[test]
fn output_root_without_file_name_is_kept_as_the_fallback() {
    // An output root whose last component is `..` has no file name, so
    // the resolver falls back to the output root itself rather than
    // deriving a template directory from it.
    let mut session = Session::new(config("root", "..", 1)).unwrap();
    session.on_scan(&entries(&[("elsewhere/a.zip", false)]));
    let jobs = session.pending_jobs();
    assert_eq!(jobs.len(), 1);
    assert_eq!(jobs[0].unpack_into, "..");
}
