use everyfile::watcher::{
    changes_from_event, coalescible_path_key, normalized_path_key, ChangeAccumulator, WatchChange,
    WatchEventKind,
};

fn s(text: &str) -> String {
    text.to_string()
}

#[test]
fn from_and_to_notifications_are_correlated_by_tracker() {
    let from = changes_from_event(WatchEventKind::RenameFrom, &vec![s(r"C:\docs\old.txt")], Some(41));
    let to = changes_from_event(WatchEventKind::RenameTo, &vec![s(r"C:\docs\new.txt")], Some(41));

    let mut accumulator = ChangeAccumulator::default();
    for change in from.into_iter().chain(to) {
        accumulator.push(change);
    }

    assert_eq!(
        accumulator.drain(),
        vec![WatchChange::Rename { from: s(r"C:\docs\old.txt"), to: s(r"C:\docs\new.txt") }]
    );
}

#[test]
fn coalescing_is_deterministic_and_preserves_final_path_semantics() {
    let mut accumulator = ChangeAccumulator::default();
    accumulator.push(WatchChange::Write(s(r"C:\docs\b.txt")));
    accumulator.push(WatchChange::Delete(s(r"C:\docs\a.txt")));
    accumulator.push(WatchChange::Delete(s(r"C:\docs\b.txt")));
    accumulator.push(WatchChange::Write(s(r"C:\docs\b.txt")));

    let changes = accumulator.drain();
    assert_eq!(
        changes,
        vec![WatchChange::Delete(s(r"C:\docs\a.txt")), WatchChange::Write(s(r"C:\docs\b.txt"))]
    );
}

#[test]
fn deleted_placeholder_keys_are_normalized_without_opening_the_path() {
    let missing = r"\\?\C:\DOCS\missing.txt";
    assert_eq!(normalized_path_key(missing), r"c:\docs\missing.txt");
}

#[test]
fn path_keys_fold_slashes_and_repeated_prefixes() {
    assert_eq!(normalized_path_key(r"\\?\\\?\C:/Docs/A.TXT"), r"c:\docs\a.txt");
    assert_eq!(normalized_path_key("C:/x"), r"c:\x");
    assert_eq!(normalized_path_key(""), "");
}

#[test]
fn coalescing_keys_cover_only_writes_and_deletions() {
    assert_eq!(coalescible_path_key(&WatchChange::Write(s("C:/A"))), Some(s(r"c:\a")));
    assert_eq!(coalescible_path_key(&WatchChange::Delete(s("C:/A"))), Some(s(r"c:\a")));
    assert_eq!(
        coalescible_path_key(&WatchChange::Rename { from: s("a"), to: s("b") }),
        None
    );
}

#[test]
fn writes_to_the_same_path_in_other_spellings_coalesce() {
    let mut accumulator = ChangeAccumulator::new();
    accumulator.push(WatchChange::Write(s(r"C:\Docs\A.txt")));
    accumulator.push(WatchChange::Delete(s("c:/docs/a.TXT")));
    assert_eq!(accumulator.drain(), vec![WatchChange::Delete(s("c:/docs/a.TXT"))]);
    assert!(accumulator.is_empty());
}

#[test]
fn unpaired_rename_halves_become_deletions_and_writes() {
    let mut accumulator = ChangeAccumulator::new();
    accumulator.push(WatchChange::RenameFrom { path: s("a"), tracker: Some(1) });
    accumulator.push(WatchChange::RenameTo { path: s("b"), tracker: Some(2) });
    accumulator.push(WatchChange::RenameFrom { path: s("c"), tracker: None });
    assert!(!accumulator.is_empty());
    assert_eq!(
        accumulator.drain(),
        vec![
            WatchChange::Delete(s("a")),
            WatchChange::Write(s("b")),
            WatchChange::Delete(s("c")),
        ]
    );
}

#[test]
fn untracked_halves_pair_oldest_first() {
    let mut accumulator = ChangeAccumulator::new();
    accumulator.push(WatchChange::RenameFrom { path: s("a"), tracker: None });
    accumulator.push(WatchChange::RenameFrom { path: s("b"), tracker: None });
    accumulator.push(WatchChange::RenameTo { path: s("c"), tracker: None });
    assert_eq!(
        accumulator.drain(),
        vec![WatchChange::Delete(s("b")), WatchChange::Rename { from: s("a"), to: s("c") }]
    );
}

#[test]
fn a_second_source_with_the_same_tracker_deletes_the_first() {
    let mut accumulator = ChangeAccumulator::new();
    accumulator.push(WatchChange::RenameFrom { path: s("a"), tracker: Some(7) });
    accumulator.push(WatchChange::RenameFrom { path: s("b"), tracker: Some(7) });
    accumulator.push(WatchChange::RenameTo { path: s("c"), tracker: Some(7) });
    assert_eq!(
        accumulator.drain(),
        vec![WatchChange::Delete(s("a")), WatchChange::Rename { from: s("b"), to: s("c") }]
    );
}

#[test]
fn clearing_discards_everything_pending() {
    let mut accumulator = ChangeAccumulator::new();
    accumulator.push(WatchChange::Write(s("a")));
    accumulator.push(WatchChange::RenameFrom { path: s("b"), tracker: None });
    accumulator.clear();
    assert!(accumulator.is_empty());
    assert_eq!(accumulator.drain(), Vec::<WatchChange>::new());
}

#[test]
fn notifications_map_to_changes() {
    let two = vec![s("a"), s("b")];
    assert_eq!(
        changes_from_event(WatchEventKind::RenameBoth, &two, None),
        vec![WatchChange::Rename { from: s("a"), to: s("b") }]
    );
    assert_eq!(
        changes_from_event(WatchEventKind::RenameBoth, &vec![s("a")], None),
        vec![WatchChange::Write(s("a"))]
    );
    assert_eq!(
        changes_from_event(WatchEventKind::Remove, &two, None),
        vec![WatchChange::Delete(s("a")), WatchChange::Delete(s("b"))]
    );
    assert_eq!(
        changes_from_event(WatchEventKind::CreateOrModify, &two, None),
        vec![WatchChange::Write(s("a")), WatchChange::Write(s("b"))]
    );
    assert_eq!(changes_from_event(WatchEventKind::Other, &two, None), Vec::<WatchChange>::new());
}

#[test]
fn draining_keeps_the_last_change_of_each_path_in_push_order() {
    let mut accumulator = ChangeAccumulator::default();
    accumulator.push(WatchChange::Write(s(r"C:\d\a.txt")));
    accumulator.push(WatchChange::Write(s(r"C:\d\b.txt")));
    accumulator.push(WatchChange::Delete(s("c:/d/A.TXT")));
    accumulator.push(WatchChange::Write(s(r"C:\d\c.txt")));
    accumulator.push(WatchChange::Write(s(r"C:\d\b.txt")));
    assert_eq!(
        accumulator.drain(),
        vec![
            WatchChange::Delete(s("c:/d/A.TXT")),
            WatchChange::Write(s(r"C:\d\c.txt")),
            WatchChange::Write(s(r"C:\d\b.txt")),
        ]
    );
    assert!(accumulator.is_empty());
}
