use everyfile::discovery::{
    candidate_from_snapshot, classify_snapshot, discover_all, is_directory_reparse_attributes,
    is_metadata_only_file_attributes, path_open_needed, DiscoveryEntryKind,
    DiscoveryEntrySnapshot, DiscoveryError, DiscoveryOptions, DiscoveryWarning,
    EntryClassification, FileCandidate, WalkItem,
};

const FILE_ATTRIBUTE_OFFLINE: u32 = 0x0000_1000;
const FILE_ATTRIBUTE_REPARSE_POINT: u32 = 0x0000_0400;

fn snapshot(path: &str, parent: &str, name: &str, kind: DiscoveryEntryKind, attributes: u32) -> DiscoveryEntrySnapshot {
    DiscoveryEntrySnapshot {
        path: path.to_string(),
        canonical_parent: parent.to_string(),
        file_name: name.to_string(),
        file_name_is_unicode: true,
        kind,
        attributes,
        size_bytes: 42,
        modified_at: Some(0),
    }
}

#[test]
fn metadata_only_snapshot_never_invokes_path_open_provider() {
    let entry = snapshot(
        r"C:\fixture\cloud\report.pdf",
        r"C:\fixture\cloud",
        "report.pdf",
        DiscoveryEntryKind::File,
        FILE_ATTRIBUTE_OFFLINE,
    );
    assert!(!path_open_needed(&entry));
    let result = candidate_from_snapshot(r"C:\fixture", entry, None).unwrap();
    assert_eq!(
        result.unwrap(),
        FileCandidate {
            canonical_path: r"C:\fixture\cloud\report.pdf".to_string(),
            relative_path: "cloud/report.pdf".into(),
            size_bytes: 42,
            modified_at: Some(0),
            metadata_only: true,
        }
    );
}

#[test]
fn directory_reparse_snapshot_is_pruned_before_path_open() {
    let entry = snapshot(
        r"C:\fixture\junction",
        r"C:\fixture",
        "junction",
        DiscoveryEntryKind::Directory,
        FILE_ATTRIBUTE_REPARSE_POINT,
    );
    assert_eq!(
        classify_snapshot(&entry, &DiscoveryOptions::default()),
        EntryClassification::PruneDirectory
    );
}

#[test]
fn excluded_directories_are_pruned_ignoring_case() {
    let options = DiscoveryOptions::default().with_excluded_directory("Build".to_string());
    let dir = |name: &str| snapshot("p", "q", name, DiscoveryEntryKind::Directory, 0);
    assert_eq!(classify_snapshot(&dir("NODE_MODULES"), &options), EntryClassification::PruneDirectory);
    assert_eq!(classify_snapshot(&dir("build"), &options), EntryClassification::PruneDirectory);
    assert_eq!(classify_snapshot(&dir("docs"), &options), EntryClassification::Descend);
    let mut odd = dir(".git");
    odd.file_name_is_unicode = false;
    assert_eq!(classify_snapshot(&odd, &options), EntryClassification::Descend);
    assert_eq!(
        classify_snapshot(&snapshot("p", "q", "l", DiscoveryEntryKind::Symlink, 0), &options),
        EntryClassification::PruneDirectory
    );
    assert_eq!(
        classify_snapshot(&snapshot("p", "q", "o", DiscoveryEntryKind::Other, 0), &options),
        EntryClassification::Skip
    );
    assert_eq!(
        classify_snapshot(&snapshot("p", "q", "f", DiscoveryEntryKind::File, 0), &options),
        EntryClassification::Candidate { metadata_only: false }
    );
}

#[test]
fn attribute_rules() {
    assert!(is_metadata_only_file_attributes(0x1000));
    assert!(is_metadata_only_file_attributes(0x40000));
    assert!(is_metadata_only_file_attributes(0x400000));
    assert!(!is_metadata_only_file_attributes(0x400));
    assert!(is_directory_reparse_attributes(0x400));
    assert!(!is_directory_reparse_attributes(0x1000));
}

#[test]
fn local_candidates_use_the_opened_path() {
    let entry = snapshot(r"C:\fixture\a.txt", r"C:\fixture", "a.txt", DiscoveryEntryKind::File, 0);
    assert!(path_open_needed(&entry));
    let ok = candidate_from_snapshot(r"C:\fixture", entry.clone(), Some(Ok(r"C:\fixture\sub\a.txt".to_string())));
    assert_eq!(ok.unwrap().unwrap().relative_path, "sub/a.txt");
    let outside = candidate_from_snapshot(r"C:\fixture", entry.clone(), Some(Ok(r"C:\other\a.txt".to_string())));
    assert_eq!(
        outside,
        Err(DiscoveryWarning {
            code: "ENTRY_OUTSIDE_ROOT".to_string(),
            path: Some(r"C:\fixture\a.txt".to_string()),
            message: "candidate resolved outside the registered root".to_string(),
        })
    );
    let failed = candidate_from_snapshot(r"C:\fixture", entry, Some(Err("denied".to_string())));
    assert_eq!(failed.unwrap_err().code, "ENTRY_CANONICALIZE_FAILED");
    let dir = snapshot(r"C:\fixture\d", r"C:\fixture", "d", DiscoveryEntryKind::Directory, 0);
    assert_eq!(candidate_from_snapshot(r"C:\fixture", dir, None), Ok(None));
}

#[test]
fn a_walk_collects_candidates_and_warnings_in_order() {
    let warning = DiscoveryWarning {
        code: "ENTRY_INACCESSIBLE".to_string(),
        path: None,
        message: "denied".to_string(),
    };
    let walk = vec![
        WalkItem::Entry {
            snapshot: snapshot(r"C:\r\b.txt", r"C:\r", "b.txt", DiscoveryEntryKind::File, 0),
            opened: Some(Ok(r"C:\r\b.txt".to_string())),
        },
        WalkItem::Failed(warning.clone()),
        WalkItem::Entry {
            snapshot: snapshot(r"C:\r\d", r"C:\r", "d", DiscoveryEntryKind::Directory, 0),
            opened: None,
        },
        WalkItem::Entry {
            snapshot: snapshot(r"C:\r\c.pdf", r"C:\r", "c.pdf", DiscoveryEntryKind::File, FILE_ATTRIBUTE_OFFLINE),
            opened: None,
        },
    ];
    let report = discover_all(Ok(r"C:\r".to_string()), walk, &DiscoveryOptions::default()).unwrap();
    let names: Vec<_> = report.files.iter().map(|f| f.relative_path.clone()).collect();
    assert_eq!(names, vec!["b.txt".to_string(), "c.pdf".to_string()]);
    assert_eq!(report.warnings, vec![warning]);
    let missing = DiscoveryError::RootIsNotDirectory(r"C:\r".to_string());
    assert_eq!(discover_all(Err(missing.clone()), vec![], &DiscoveryOptions::default()), Err(missing));
}

#[test]
fn nothing_below_a_pruned_directory_is_reported() {
    let options = DiscoveryOptions::default().with_excluded_directory("skipme".to_string());
    let walk = vec![
        WalkItem::Entry {
            snapshot: snapshot(r"C:\r\link", r"C:\r", "link", DiscoveryEntryKind::Symlink, 0),
            opened: None,
        },
        WalkItem::Entry {
            snapshot: snapshot(r"C:\r\link\a.txt", r"C:\r\link", "a.txt", DiscoveryEntryKind::File, 0),
            opened: Some(Ok(r"C:\r\link\a.txt".to_string())),
        },
        WalkItem::Entry {
            snapshot: snapshot(r"C:\r\SkipMe", r"C:\r", "SkipMe", DiscoveryEntryKind::Directory, 0),
            opened: None,
        },
        WalkItem::Entry {
            snapshot: snapshot(r"C:\r\SkipMe\b.txt", r"C:\r\SkipMe", "b.txt", DiscoveryEntryKind::File, 0),
            opened: Some(Ok(r"C:\r\SkipMe\b.txt".to_string())),
        },
        WalkItem::Entry {
            snapshot: snapshot(r"C:\r\linked.txt", r"C:\r", "linked.txt", DiscoveryEntryKind::File, 0),
            opened: Some(Ok(r"C:\r\linked.txt".to_string())),
        },
        WalkItem::Entry {
            snapshot: snapshot(r"C:\r\junction", r"C:\r", "junction", DiscoveryEntryKind::Directory, FILE_ATTRIBUTE_REPARSE_POINT),
            opened: None,
        },
        WalkItem::Entry {
            snapshot: snapshot(r"C:\r\junction\c.txt", r"C:\r\junction", "c.txt", DiscoveryEntryKind::File, 0),
            opened: Some(Err("denied".to_string())),
        },
    ];
    let report = discover_all(Ok(r"C:\r".to_string()), walk, &options).unwrap();
    let names: Vec<_> = report.files.iter().map(|f| f.relative_path.clone()).collect();
    assert_eq!(names, vec!["linked.txt".to_string()]);
    assert!(report.warnings.is_empty());
}
